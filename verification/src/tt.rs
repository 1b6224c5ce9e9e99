//! The transposition table: a direct-mapped cache of search results keyed by
//! the position's Zobrist hash.

use vstd::prelude::*;
use crate::chess::ChessMove;

verus! {

#[derive(Clone, Copy, PartialEq, Eq, Structural, Debug)]
pub enum Bound {
    Exact,
    Lower,
    Upper,
}

#[derive(Clone, Copy, PartialEq, Eq, Structural, Debug)]
pub struct TtEntry {
    pub key: u64,
    pub depth: u32,
    pub score: i32,
    pub bound: Bound,
    pub best_move: Option<ChessMove>,
}

/// An unused slot. `key == 0` is the "empty" sentinel, which keeps every slot a
/// plain `TtEntry`; the one position in 2^64 that really hashes to 0 is simply
/// never cached: `probe` and `store` both skip it.
pub open spec fn empty_entry() -> TtEntry {
    TtEntry { key: 0, depth: 0, score: 0, bound: Bound::Exact, best_move: None }
}

fn empty() -> (r: TtEntry)
    ensures
        r == empty_entry(),
{
    TtEntry { key: 0, depth: 0, score: 0, bound: Bound::Exact, best_move: None }
}

impl TtEntry {
    pub open spec fn spec_is_empty(&self) -> bool {
        self.key == 0
    }

    #[verifier::when_used_as_spec(spec_is_empty)]
    fn is_empty(&self) -> (r: bool)
        ensures
            r == self.spec_is_empty(),
    {
        self.key == 0
    }
}

/// Never shrink below this, so a tiny hash size still leaves a usable table.
pub const MIN_ENTRIES: usize = 1024;

/// The largest power of two not above `n` (0 for 0).
pub open spec fn floor_pow2(n: nat) -> nat
    decreases n,
{
    if n < 2 {
        n
    } else {
        2 * floor_pow2(n / 2)
    }
}

/// `n` is a power of two.
pub open spec fn is_pow2(n: nat) -> bool
    decreases n,
{
    if n == 1 {
        true
    } else if n < 2 || n % 2 != 0 {
        false
    } else {
        is_pow2(n / 2)
    }
}

pub proof fn lemma_floor_pow2(n: nat)
    ensures
        floor_pow2(n) <= n,
        n >= 1 ==> is_pow2(floor_pow2(n)) && n < 2 * floor_pow2(n),
    decreases n,
{
    if n >= 2 {
        lemma_floor_pow2(n / 2);
        assert(is_pow2(2 * floor_pow2(n / 2))) by {
            assert((2 * floor_pow2(n / 2)) / 2 == floor_pow2(n / 2));
        }
    }
}

fn floor_pow2_of(n: usize) -> (r: usize)
    ensures
        r == floor_pow2(n as nat),
    decreases n,
{
    proof {
        lemma_floor_pow2(n as nat);
    }
    if n < 2 {
        n
    } else {
        proof {
            lemma_floor_pow2((n / 2) as nat);
        }
        2 * floor_pow2_of(n / 2)
    }
}

/// How many entries of `entry_bytes` bytes a table of `size_mb` MiB holds,
/// rounded down to a power of two and never below `MIN_ENTRIES`.
pub open spec fn spec_entry_count(size_mb: nat, entry_bytes: nat) -> nat {
    let fits = if entry_bytes == 0 {
        0
    } else {
        size_mb * 1024 * 1024 / entry_bytes
    };
    if floor_pow2(fits) < MIN_ENTRIES {
        MIN_ENTRIES as nat
    } else {
        floor_pow2(fits)
    }
}

/// The size in bytes of one table entry.
pub open spec fn entry_bytes() -> nat {
    vstd::layout::size_of::<TtEntry>()
}

/// How many entries fit in `size_mb`, rounded *down* to a power of two, so a
/// requested size is never exceeded (except by the `MIN_ENTRIES` floor).
pub fn entry_count(size_mb: usize) -> (r: usize)
    requires
        size_mb * 1048576 <= usize::MAX,
    ensures
        r == spec_entry_count(size_mb as nat, entry_bytes()),
{
    let bytes = core::mem::size_of::<TtEntry>();
    // A table entry is never zero-sized; the guard only spares a division.
    let fits = if bytes == 0 {
        0
    } else {
        size_mb * 1024 * 1024 / bytes
    };
    let rounded = floor_pow2_of(fits);
    if rounded < MIN_ENTRIES {
        MIN_ENTRIES
    } else {
        rounded
    }
}

/// The table size law: the entry count is a power of two, at least
/// `MIN_ENTRIES`, and its bytes stay within the requested size unless the
/// `MIN_ENTRIES` floor applies.
pub proof fn lemma_entry_count(size_mb: nat)
    requires
        entry_bytes() > 0,
    ensures
        is_pow2(spec_entry_count(size_mb, entry_bytes())),
        spec_entry_count(size_mb, entry_bytes()) >= MIN_ENTRIES,
        spec_entry_count(size_mb, entry_bytes()) * entry_bytes() <= size_mb * 1024 * 1024
            || spec_entry_count(size_mb, entry_bytes()) == MIN_ENTRIES,
{
    let fits = size_mb * 1024 * 1024 / entry_bytes();
    lemma_floor_pow2(fits);
    assert(is_pow2(1024)) by {
        reveal_with_fuel(is_pow2, 11);
    }
    if floor_pow2(fits) >= MIN_ENTRIES {
        assert(floor_pow2(fits) * entry_bytes() <= fits * entry_bytes()) by (nonlinear_arith)
            requires
                floor_pow2(fits) <= fits,
        ;
        assert(fits * entry_bytes() <= size_mb * 1024 * 1024) by (nonlinear_arith)
            requires
                fits == size_mb * 1024 * 1024 / entry_bytes(),
                entry_bytes() > 0,
        ;
    }
}

proof fn lemma_entry_count_shape(size_mb: nat)
    ensures
        is_pow2(spec_entry_count(size_mb, entry_bytes())),
        spec_entry_count(size_mb, entry_bytes()) >= MIN_ENTRIES,
{
    let fits = if entry_bytes() == 0 { 0 } else { size_mb * 1024 * 1024 / entry_bytes() };
    lemma_floor_pow2(fits);
    assert(is_pow2(1024)) by {
        reveal_with_fuel(is_pow2, 11);
    }
}

/// Number of occupied (non-empty) slots.
pub open spec fn count_filled(s: Seq<TtEntry>) -> nat
    decreases s.len(),
{
    if s.len() == 0 {
        0
    } else {
        count_filled(s.drop_last()) + if s.last().key != 0 {
            1nat
        } else {
            0nat
        }
    }
}

proof fn lemma_count_filled_bound(s: Seq<TtEntry>)
    ensures
        count_filled(s) <= s.len(),
    decreases s.len(),
{
    if s.len() > 0 {
        lemma_count_filled_bound(s.drop_last());
    }
}

proof fn lemma_count_filled_update(s: Seq<TtEntry>, i: int, e: TtEntry)
    requires
        0 <= i < s.len(),
    ensures
        count_filled(s.update(i, e)) + (if s[i].key != 0 {
            1int
        } else {
            0
        }) == count_filled(s) + (if e.key != 0 {
            1int
        } else {
            0
        }),
    decreases s.len(),
{
    if i < s.len() - 1 {
        lemma_count_filled_update(s.drop_last(), i, e);
        assert(s.update(i, e).drop_last() =~= s.drop_last().update(i, e));
    } else {
        assert(s.update(i, e).drop_last() =~= s.drop_last());
    }
}

proof fn lemma_count_filled_empty(n: nat)
    ensures
        count_filled(Seq::new(n, |i: int| empty_entry())) == 0,
    decreases n,
{
    if n > 0 {
        lemma_count_filled_empty((n - 1) as nat);
        assert(Seq::new(n, |i: int| empty_entry()).drop_last() =~= Seq::new(
            (n - 1) as nat,
            |i: int| empty_entry(),
        ));
    }
}

struct Slots {
    entries: Vec<TtEntry>,
    mask: usize,
    /// Occupied slots, maintained by `store` so the fill level is O(1).
    filled: usize,
}

impl Slots {
    spec fn wf(&self) -> bool {
        &&& self.entries@.len() >= MIN_ENTRIES
        &&& is_pow2(self.entries@.len() as nat)
        &&& self.mask == self.entries@.len() - 1
        &&& self.filled == count_filled(self.entries@)
    }

    fn set(&mut self, index: usize, e: TtEntry)
        requires
            old(self).wf(),
            index < old(self).entries@.len(),
        ensures
            final(self).wf(),
            final(self).mask == old(self).mask,
            final(self).entries@ == old(self).entries@.update(index as int, e),
    {
        proof {
            lemma_count_filled_update(self.entries@, index as int, e);
            lemma_count_filled_bound(self.entries@.update(index as int, e));
            lemma_count_filled_bound(self.entries@);
        }
        let n = self.entries.len();
        let was = self.entries[index].key != 0;
        self.entries.set(index, e);
        if was && e.key == 0 {
            self.filled = self.filled - 1;
        } else if !was && e.key != 0 {
            assert(self.filled + 1 <= n);
            self.filled = self.filled + 1;
        }
    }
}

pub struct Tt {
    slots: Slots,
}

impl View for Tt {
    type V = Seq<TtEntry>;

    closed spec fn view(&self) -> Seq<TtEntry> {
        self.slots.entries@
    }
}

/// A `new` with all slots empty.
pub open spec fn all_empty(s: Seq<TtEntry>) -> bool {
    forall|i: int| 0 <= i < s.len() ==> #[trigger] s[i] == empty_entry()
}

impl Tt {
    /// The table's bookkeeping is consistent: its size is a power of two, at
    /// least `MIN_ENTRIES`, and the occupied-slot count is exact.
    pub closed spec fn wf(&self) -> bool {
        self.slots.wf()
    }

    /// The number of slots.
    pub closed spec fn capacity(&self) -> nat {
        self.slots.entries@.len()
    }

    /// The number of occupied slots.
    pub closed spec fn spec_filled(&self) -> nat {
        count_filled(self.slots.entries@)
    }

    /// The slot that `key` maps to: its low bits.
    pub closed spec fn slot(&self, key: u64) -> int {
        ((key as usize) & self.slots.mask) as int
    }

    /// What `probe(key)` finds.
    pub open spec fn lookup(&self, key: u64) -> Option<TtEntry> {
        if key != 0 && self@[self.slot(key)].key == key {
            Some(self@[self.slot(key)])
        } else {
            None
        }
    }

    /// Every probe of an empty table misses.
    pub proof fn lemma_empty_lookup(&self)
        requires
            self.wf(),
            all_empty(self@),
        ensures
            forall|k: u64| #[trigger] self.lookup(k) is None,
    {
        self.lemma_wf();
        assert forall|k: u64| #[trigger] self.lookup(k) is None by {
            assert(self@[self.slot(k)] == empty_entry());
        }
    }

    /// The table's shape and bookkeeping facts.
    pub proof fn lemma_wf(&self)
        requires
            self.wf(),
        ensures
            self@.len() == self.capacity(),
            self.capacity() >= MIN_ENTRIES,
            is_pow2(self.capacity()),
            forall|k: u64| 0 <= #[trigger] self.slot(k) < self.capacity(),
            self.spec_filled() == count_filled(self@),
            self.spec_filled() <= self.capacity(),
    {
        assert forall|k: u64| 0 <= #[trigger] self.slot(k) < self.capacity() by {
            let m = self.slots.mask;
            assert((k as usize) & m <= m) by (bit_vector);
            assert(self.slots.entries@.len() >= 1);
        }
        lemma_count_filled_bound(self.slots.entries@);
    }

    /// A table of `size_mb` MiB with every slot empty.
    pub fn new(size_mb: usize) -> (r: Self)
        requires
            size_mb * 1048576 <= usize::MAX,
        ensures
            r.wf(),
            r.capacity() == spec_entry_count(size_mb as nat, entry_bytes()),
            all_empty(r@),
            r.spec_filled() == 0,
            forall|k: u64| #[trigger] r.lookup(k) is None,
    {
        let num_entries = entry_count(size_mb);
        proof {
            lemma_entry_count_shape(size_mb as nat);
            lemma_count_filled_empty(num_entries as nat);
        }
        let entries = vec![empty(); num_entries];
        assert(entries@ =~= Seq::new(num_entries as nat, |i: int| empty_entry()));
        let t = Tt { slots: Slots { entries, mask: num_entries - 1, filled: 0 } };
        proof {
            t.lemma_empty_lookup();
        }
        t
    }

    fn index(&self, key: u64) -> (r: usize)
        requires
            self.wf(),
        ensures
            r == self.slot(key),
            r < self@.len(),
    {
        proof {
            self.lemma_wf();
        }
        let r = (key as usize) & self.slots.mask;
        assert(r == self.slot(key));
        r
    }

    /// The entry stored for `key`, if its slot holds that very key.
    pub fn probe(&self, key: u64) -> (r: Option<&TtEntry>)
        requires
            self.wf(),
        ensures
            r == match self.lookup(key) {
                Some(e) => Some(&e),
                None => None,
            },
    {
        if key == 0 {
            return None;  // Would match every untouched slot.
        }
        let e = &self.slots.entries[self.index(key)];
        if e.key == key {
            return Some(e);
        }
        None
    }

    /// Whether `store(key, depth, ..)` keeps the current table: key 0 is never
    /// stored, and an entry of the same key searched deeper is kept.
    pub open spec fn store_kept(&self, key: u64, depth: u32) -> bool {
        key == 0 || (self@[self.slot(key)].key == key && self@[self.slot(key)].depth > depth)
    }

    /// Remember a search result for `key`, replacing whatever its slot held
    /// unless that is the same key searched deeper.
    pub fn store(
        &mut self,
        key: u64,
        depth: u32,
        score: i32,
        bound: Bound,
        best_move: Option<ChessMove>,
    )
        requires
            old(self).wf(),
        ensures
            final(self).wf(),
            final(self).capacity() == old(self).capacity(),
            forall|k: u64| #[trigger] final(self).slot(k) == old(self).slot(k),
            old(self).store_kept(key, depth) ==> final(self)@ == old(self)@,
            !old(self).store_kept(key, depth) ==> final(self)@ == old(self)@.update(
                old(self).slot(key),
                TtEntry { key, depth, score, bound, best_move },
            ),
            !old(self).store_kept(key, depth) ==> final(self).lookup(key) == Some(
                TtEntry { key, depth, score, bound, best_move },
            ),
            forall|k: u64|
                #[trigger] old(self).slot(k) != old(self).slot(key) ==> final(self).lookup(k)
                    == old(self).lookup(k),
    {
        proof {
            self.lemma_wf();
        }
        if key == 0 {
            return;  // Can't be distinguished from an empty slot.
        }
        let index = self.index(key);
        let slot = self.slots.entries[index];
        if slot.key == key && slot.depth > depth {
            return;  // Don't overwrite a deeper entry with a shallower one.
        }
        let new_entry = TtEntry { key, depth, score, bound, best_move };
        self.slots.set(index, new_entry);
    }

    /// Drop every entry, keeping the current size.
    pub fn clear(&mut self)
        requires
            old(self).wf(),
        ensures
            final(self).wf(),
            final(self).capacity() == old(self).capacity(),
            all_empty(final(self)@),
            final(self).spec_filled() == 0,
            forall|k: u64| #[trigger] final(self).lookup(k) is None,
    {

        let n = self.slots.entries.len();
        let mut i: usize = 0;
        while i < n
            invariant
                self.slots.wf(),
                self.slots.mask == old(self).slots.mask,
                self.slots.entries@.len() == n,
                i <= n,
                forall|j: int| 0 <= j < i ==> #[trigger] self.slots.entries@[j] == empty_entry(),
            decreases n - i,
        {
            self.slots.set(i, empty());
            i = i + 1;
        }
        proof {
            assert(self.slots.entries@ =~= Seq::new(n as nat, |i: int| empty_entry()));
            lemma_count_filled_empty(n as nat);
            self.lemma_empty_lookup();
        }
    }

    /// Rebuild the table for a new size, dropping every entry.
    pub fn resize(&mut self, size_mb: usize)
        requires
            size_mb * 1048576 <= usize::MAX,
        ensures
            final(self).wf(),
            final(self).capacity() == spec_entry_count(size_mb as nat, entry_bytes()),
            all_empty(final(self)@),
            final(self).spec_filled() == 0,
            forall|k: u64| #[trigger] final(self).lookup(k) is None,
    {
        // The old table is dropped before the new one is allocated, so two
        // large tables never coexist.
        *self = Tt::new(0);
        *self = Tt::new(size_mb);
    }

    /// The number of slots.
    pub fn len(&self) -> (r: usize)
        ensures
            r == self.capacity(),
    {
        self.slots.entries.len()
    }

    /// The number of occupied slots.
    pub fn filled(&self) -> (r: usize)
        requires
            self.wf(),
        ensures
            r == self.spec_filled(),
    {

        self.slots.filled
    }

    /// How full the table is, in permille (0 to 1000).
    pub fn hashfull(&self) -> (r: u32)
        requires
            self.wf(),
        ensures
            r == self.spec_filled() * 1000 / self.capacity(),
            r <= 1000,
    {
        proof {
            self.lemma_wf();
        }
        let f = self.slots.filled as u128;
        let n = self.slots.entries.len() as u128;
        assert((f * 1000) as int / (n as int) <= 1000) by (nonlinear_arith)
            requires
                f <= n,
                n > 0,
        ;
        (f * 1000 / n) as u32
    }
}

} // verus!
