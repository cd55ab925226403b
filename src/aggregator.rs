//! The bounded map from payload id to the assembly of that block.

use vstd::prelude::*;
use crate::flashblock::Flashblock;

verus! {

/// How many assemblies are kept unless another bound is chosen.
pub const DEFAULT_CAPACITY: usize = 10;

/// The progress of one block under construction. Times are milliseconds
/// since the Unix epoch.
#[derive(Clone, Debug)]
pub struct BlockAssembly {
    pub block_number: u64,
    pub payload_id: String,
    pub sub_blocks: u64,
    pub total_transactions: u64,
    pub start_time: i64,
    pub last_update: i64,
}

/// An assembly as a mathematical value.
pub struct AssemblyModel {
    pub block_number: u64,
    pub payload_id: Seq<char>,
    pub sub_blocks: nat,
    pub total_transactions: nat,
    pub start_time: int,
    pub last_update: int,
}

impl View for BlockAssembly {
    type V = AssemblyModel;

    open spec fn view(&self) -> AssemblyModel {
        AssemblyModel {
            block_number: self.block_number,
            payload_id: self.payload_id@,
            sub_blocks: self.sub_blocks as nat,
            total_transactions: self.total_transactions as nat,
            start_time: self.start_time as int,
            last_update: self.last_update as int,
        }
    }
}

impl BlockAssembly {
    /// A field-by-field copy.
    pub fn duplicate(&self) -> (r: BlockAssembly)
        ensures
            r@ == self@,
    {
        BlockAssembly {
            block_number: self.block_number,
            payload_id: self.payload_id.clone(),
            sub_blocks: self.sub_blocks,
            total_transactions: self.total_transactions,
            start_time: self.start_time,
            last_update: self.last_update,
        }
    }
}

pub open spec fn views(entries: Seq<BlockAssembly>) -> Seq<AssemblyModel> {
    entries.map_values(|a: BlockAssembly| a@)
}

/// Where the assembly of `id` stands, or -1.
pub open spec fn position_of(s: Seq<AssemblyModel>, id: Seq<char>) -> int
    decreases s.len(),
{
    if s.len() == 0 {
        -1
    } else if s[0].payload_id == id {
        0
    } else {
        let p = position_of(s.skip(1), id);
        if p < 0 {
            -1
        } else {
            p + 1
        }
    }
}

/// The assembly that a fragment starts.
pub open spec fn fresh_assembly(fb: Flashblock, now: int) -> AssemblyModel {
    AssemblyModel {
        block_number: fb.spec_effective_block_number(),
        payload_id: fb.payload_id@,
        sub_blocks: 1,
        total_transactions: fb.spec_transaction_count(),
        start_time: now,
        last_update: now,
    }
}

/// An assembly after one more of its diff fragments.
pub open spec fn extended_assembly(a: AssemblyModel, fb: Flashblock, now: int) -> AssemblyModel {
    AssemblyModel {
        sub_blocks: a.sub_blocks + 1,
        total_transactions: a.total_transactions + fb.spec_transaction_count(),
        last_update: if now > a.last_update { now } else { a.last_update },
        ..a
    }
}

/// The assemblies after a fragment is taken in, before any eviction: an
/// initial fragment starts its payload's assembly afresh, a diff extends it,
/// and a diff for an unknown payload starts one.
pub open spec fn applied(s: Seq<AssemblyModel>, fb: Flashblock, now: int) -> Seq<AssemblyModel> {
    let p = position_of(s, fb.payload_id@);
    if p < 0 {
        s.push(fresh_assembly(fb, now))
    } else if fb.index == 0 {
        s.update(p, fresh_assembly(fb, now))
    } else {
        s.update(p, extended_assembly(s[p], fb, now))
    }
}

/// The first of the entries among the first `n` with the least start time.
pub open spec fn oldest_upto(s: Seq<AssemblyModel>, n: int) -> int
    decreases n,
{
    if n <= 1 {
        0
    } else {
        let b = oldest_upto(s, n - 1);
        if s[n - 1].start_time < s[b].start_time {
            n - 1
        } else {
            b
        }
    }
}

pub open spec fn oldest(s: Seq<AssemblyModel>) -> int {
    oldest_upto(s, s.len() as int)
}

/// The entries once the bound is enforced: over it, the oldest goes.
pub open spec fn evicted(s: Seq<AssemblyModel>, capacity: nat) -> Seq<AssemblyModel> {
    if s.len() > capacity {
        s.remove(oldest(s))
    } else {
        s
    }
}

/// The entries after one observation.
pub open spec fn observed(s: Seq<AssemblyModel>, fb: Flashblock, now: int, capacity: nat) -> Seq<AssemblyModel> {
    evicted(applied(s, fb, now), capacity)
}

pub open spec fn unique_ids(s: Seq<AssemblyModel>) -> bool {
    forall|i: int, j: int| 0 <= i < s.len() && 0 <= j < s.len() && i != j
        ==> (#[trigger] s[i]).payload_id != (#[trigger] s[j]).payload_id
}

/// What holds of the entries at all times.
pub open spec fn valid_entries(s: Seq<AssemblyModel>, capacity: nat) -> bool {
    &&& unique_ids(s)
    &&& s.len() <= capacity
    &&& forall|i: int| 0 <= i < s.len() ==> (#[trigger] s[i]).sub_blocks >= 1
    &&& forall|i: int| 0 <= i < s.len() ==> (#[trigger] s[i]).last_update >= s[i].start_time
}

/// Whether the counters that a fragment raises stay within 64 bits.
pub open spec fn counters_fit(s: Seq<AssemblyModel>, fb: Flashblock) -> bool {
    let p = position_of(s, fb.payload_id@);
    &&& fb.spec_transaction_count() <= u64::MAX
    &&& (p >= 0 && fb.index != 0) ==> {
        &&& s[p].sub_blocks + 1 <= u64::MAX
        &&& s[p].total_transactions + fb.spec_transaction_count() <= u64::MAX
    }
}

pub proof fn lemma_position_of(s: Seq<AssemblyModel>, id: Seq<char>, i: int)
    requires
        0 <= i <= s.len(),
        forall|j: int| 0 <= j < i ==> (#[trigger] s[j]).payload_id != id,
    ensures
        i < s.len() && s[i].payload_id == id ==> position_of(s, id) == i,
        i == s.len() ==> position_of(s, id) == -1,
    decreases i,
{
    if i > 0 {
        let rest = s.skip(1);
        assert forall|j: int| 0 <= j < i - 1 implies (#[trigger] rest[j]).payload_id != id by {
            assert(rest[j] == s[j + 1]);
        }
        lemma_position_of(rest, id, i - 1);
    }
}

/// `position_of` finds the entry of an id, and only there.
pub proof fn lemma_position_of_found(s: Seq<AssemblyModel>, id: Seq<char>)
    requires
        unique_ids(s),
    ensures
        position_of(s, id) < 0 <==> forall|j: int| 0 <= j < s.len() ==> (#[trigger] s[j]).payload_id != id,
        position_of(s, id) >= 0 ==> position_of(s, id) < s.len() && s[position_of(s, id)].payload_id == id,
    decreases s.len(),
{
    if s.len() > 0 {
        let rest = s.skip(1);
        assert forall|i: int, j: int| 0 <= i < rest.len() && 0 <= j < rest.len() && i != j
            implies (#[trigger] rest[i]).payload_id != (#[trigger] rest[j]).payload_id by {
            assert(rest[i] == s[i + 1] && rest[j] == s[j + 1]);
        }
        lemma_position_of_found(rest, id);
        if s[0].payload_id != id {
            assert forall|j: int| 0 <= j < s.len() && position_of(s, id) < 0
                implies (#[trigger] s[j]).payload_id != id by {
                if j > 0 {
                    assert(rest[j - 1] == s[j]);
                }
            }
            if position_of(s, id) >= 0 {
                assert(rest[position_of(rest, id)] == s[position_of(s, id)]);
            }
        }
    }
}

/// The oldest entry is one with the least start time, and the first such.
pub proof fn lemma_oldest(s: Seq<AssemblyModel>, n: int)
    requires
        1 <= n <= s.len(),
    ensures
        0 <= oldest_upto(s, n) < n,
        forall|k: int| 0 <= k < n ==> s[oldest_upto(s, n)].start_time <= (#[trigger] s[k]).start_time,
        forall|k: int| 0 <= k < oldest_upto(s, n) ==> s[oldest_upto(s, n)].start_time < (#[trigger] s[k]).start_time,
    decreases n,
{
    if n > 1 {
        lemma_oldest(s, n - 1);
    }
}

/// Taking a fragment in keeps the entries valid, under a bound one larger.
pub proof fn lemma_applied_valid(s: Seq<AssemblyModel>, fb: Flashblock, now: int, capacity: nat)
    requires
        valid_entries(s, capacity),
    ensures
        valid_entries(applied(s, fb, now), capacity + 1),
{
    lemma_position_of_found(s, fb.payload_id@);
    let t = applied(s, fb, now);
    let p = position_of(s, fb.payload_id@);
    if p < 0 {
        assert forall|i: int, j: int| 0 <= i < t.len() && 0 <= j < t.len() && i != j
            implies (#[trigger] t[i]).payload_id != (#[trigger] t[j]).payload_id by {
            if i < s.len() && j < s.len() {
                assert(t[i] == s[i] && t[j] == s[j]);
            } else if i < s.len() {
                assert(t[i] == s[i]);
            } else {
                assert(t[j] == s[j]);
            }
        }
    } else {
        assert forall|i: int, j: int| 0 <= i < t.len() && 0 <= j < t.len() && i != j
            implies (#[trigger] t[i]).payload_id != (#[trigger] t[j]).payload_id by {
            assert(t[i].payload_id == s[i].payload_id);
            assert(t[j].payload_id == s[j].payload_id);
        }
    }
}

/// Enforcing the bound on entries that are at most one over it.
pub proof fn lemma_evicted_valid(t: Seq<AssemblyModel>, capacity: nat)
    requires
        valid_entries(t, capacity + 1),
    ensures
        valid_entries(evicted(t, capacity), capacity),
{
    if t.len() > capacity {
        lemma_oldest(t, t.len() as int);
        let k = oldest(t);
        let u = t.remove(k);
        assert forall|i: int| 0 <= i < u.len() implies #[trigger] u[i] == t[if i < k { i } else { i + 1 }] by {}
        assert forall|i: int, j: int| 0 <= i < u.len() && 0 <= j < u.len() && i != j
            implies (#[trigger] u[i]).payload_id != (#[trigger] u[j]).payload_id by {
            assert(u[i] == t[if i < k { i } else { i + 1 }]);
            assert(u[j] == t[if j < k { j } else { j + 1 }]);
        }
    }
}

/// Observation keeps the entries valid.
pub proof fn lemma_observed_valid(s: Seq<AssemblyModel>, fb: Flashblock, now: int, capacity: nat)
    requires
        valid_entries(s, capacity),
    ensures
        valid_entries(observed(s, fb, now, capacity), capacity),
{
    lemma_applied_valid(s, fb, now, capacity);
    lemma_evicted_valid(applied(s, fb, now), capacity);
}

/// How an observed fragment related to what was resident.
#[derive(Clone, Copy, Debug, PartialEq, Eq, Structural)]
pub enum ObservationKind {
    /// An initial fragment for a payload with no assembly.
    Started,
    /// An initial fragment for a payload that had one; it starts afresh.
    Restarted,
    /// A diff fragment that extended its payload's assembly.
    Extended,
    /// A diff fragment for a payload with no assembly: one was started from it.
    Orphan,
}

pub open spec fn observation_kind(s: Seq<AssemblyModel>, fb: Flashblock) -> ObservationKind {
    let p = position_of(s, fb.payload_id@);
    if fb.index == 0 {
        if p < 0 { ObservationKind::Started } else { ObservationKind::Restarted }
    } else {
        if p < 0 { ObservationKind::Orphan } else { ObservationKind::Extended }
    }
}

/// What one observation did.
#[derive(Debug)]
pub struct Observation {
    pub kind: ObservationKind,
    /// The assembly that was dropped to keep within the bound, if any.
    pub evicted: Option<BlockAssembly>,
}

/// The assemblies of the blocks in progress, at most `capacity` of them, one
/// per payload id.
pub struct Aggregator {
    entries: Vec<BlockAssembly>,
    capacity: usize,
}

impl View for Aggregator {
    type V = Seq<AssemblyModel>;

    closed spec fn view(&self) -> Seq<AssemblyModel> {
        views(self.entries@)
    }
}

/// Relies on chrono's `Utc::now`: the current time in milliseconds since the
/// Unix epoch. Nothing is promised of the value.
#[verifier::external_body]
pub(crate) fn current_time_millis() -> (r: i64) {
    chrono::Utc::now().timestamp_millis()
}

impl Aggregator {
    pub closed spec fn spec_capacity(&self) -> nat {
        self.capacity as nat
    }

    pub closed spec fn wf(&self) -> bool {
        valid_entries(self@, self.capacity as nat)
    }

    /// What well-formedness means: unique payload ids, at most `capacity`
    /// entries, each with a sub-block and a last update no earlier than its
    /// start.
    pub proof fn lemma_wf(&self)
        requires
            self.wf(),
        ensures
            valid_entries(self@, self.spec_capacity()),
    {
    }

    /// An empty aggregator that keeps at most `capacity` assemblies.
    pub fn with_capacity(capacity: usize) -> (r: Aggregator)
        ensures
            r.wf(),
            r@ == Seq::<AssemblyModel>::empty(),
            r.spec_capacity() == capacity,
    {
        let r = Aggregator { entries: Vec::new(), capacity };
        assert(r@ =~= Seq::<AssemblyModel>::empty());
        r
    }

    /// An empty aggregator with the default bound.
    pub fn new() -> (r: Aggregator)
        ensures
            r.wf(),
            r@ == Seq::<AssemblyModel>::empty(),
            r.spec_capacity() == DEFAULT_CAPACITY,
    {
        Aggregator::with_capacity(DEFAULT_CAPACITY)
    }

    pub fn capacity(&self) -> (r: usize)
        ensures
            r == self.spec_capacity(),
    {
        self.capacity
    }

    pub fn len(&self) -> (r: usize)
        ensures
            r == self@.len(),
    {
        self.entries.len()
    }

    pub fn is_empty(&self) -> (r: bool)
        ensures
            r == (self@.len() == 0),
    {
        self.entries.len() == 0
    }

    fn position(&self, id: &String) -> (r: Option<usize>)
        requires
            self.wf(),
        ensures
            r matches Some(i) ==> i == position_of(self@, id@) && i < self.entries@.len()
                && self@[i as int] == self.entries@[i as int]@,
            r.is_none() ==> position_of(self@, id@) == -1,
    {
        let n = self.entries.len();
        let mut i: usize = 0;
        while i < n
            invariant
                n == self@.len(),
                n == self.entries@.len(),
                0 <= i <= n,
                forall|j: int| 0 <= j < i ==> (#[trigger] self@[j]).payload_id != id@,
            decreases n - i,
        {
            if self.entries[i].payload_id == *id {
                proof {
                    lemma_position_of(self@, id@, i as int);
                }
                return Some(i);
            }
            i = i + 1;
        }
        proof {
            lemma_position_of(self@, id@, n as int);
        }
        None
    }

    /// Whether observing `fb` keeps every counter within 64 bits.
    pub fn can_observe(&self, fb: &Flashblock) -> (r: bool)
        requires
            self.wf(),
        ensures
            r == counters_fit(self@, *fb),
    {
        let count = fb.transaction_count();
        if count as u128 > u64::MAX as u128 {
            return false;
        }
        if fb.index == 0 {
            return true;
        }
        match self.position(&fb.payload_id) {
            None => true,
            Some(i) => {
                let a = &self.entries[i];
                a.sub_blocks < u64::MAX && a.total_transactions as u128 + count as u128 <= u64::MAX as u128
            },
        }
    }

    /// Takes in a fragment observed at `now`: an initial fragment starts its
    /// payload's assembly afresh, a diff fragment extends it, and a diff for
    /// an unknown payload starts one and is reported as an orphan. When that
    /// puts the aggregator over its bound, the assembly with the least start
    /// time is evicted.
    pub fn observe(&mut self, fb: &Flashblock, now: i64) -> (r: Observation)
        requires
            old(self).wf(),
            counters_fit(old(self)@, *fb),
        ensures
            final(self).wf(),
            valid_entries(final(self)@, final(self).spec_capacity()),
            final(self).spec_capacity() == old(self).spec_capacity(),
            final(self)@ == observed(old(self)@, *fb, now as int, old(self).spec_capacity()),
            r.kind == observation_kind(old(self)@, *fb),
            ({
                let t = applied(old(self)@, *fb, now as int);
                match r.evicted {
                    Some(e) => t.len() > old(self).spec_capacity() && e@ == t[oldest(t)],
                    None => t.len() <= old(self).spec_capacity(),
                }
            }),
    {
        let ghost s = self@;
        let ghost cap = self.capacity as nat;
        proof {
            lemma_observed_valid(s, *fb, now as int, cap);
            lemma_position_of_found(s, fb.payload_id@);
        }
        let count = fb.transaction_count() as u64;
        let kind;
        match self.position(&fb.payload_id) {
            None => {
                let fresh = BlockAssembly {
                    block_number: fb.effective_block_number(),
                    payload_id: fb.payload_id.clone(),
                    sub_blocks: 1,
                    total_transactions: count,
                    start_time: now,
                    last_update: now,
                };
                self.entries.push(fresh);
                kind = if fb.index == 0 { ObservationKind::Started } else { ObservationKind::Orphan };
            },
            Some(i) => {
                let next = if fb.index == 0 {
                    BlockAssembly {
                        block_number: fb.effective_block_number(),
                        payload_id: fb.payload_id.clone(),
                        sub_blocks: 1,
                        total_transactions: count,
                        start_time: now,
                        last_update: now,
                    }
                } else {
                    let a = &self.entries[i];
                    BlockAssembly {
                        block_number: a.block_number,
                        payload_id: a.payload_id.clone(),
                        sub_blocks: a.sub_blocks + 1,
                        total_transactions: a.total_transactions + count,
                        start_time: a.start_time,
                        last_update: if now > a.last_update { now } else { a.last_update },
                    }
                };
                self.entries.set(i, next);
                kind = if fb.index == 0 { ObservationKind::Restarted } else { ObservationKind::Extended };
            },
        }
        let ghost t = applied(s, *fb, now as int);
        assert(self@ =~= t);
        let evicted = if self.entries.len() > self.capacity {
            let k = self.oldest_position();
            let e = self.entries.remove(k);
            assert(self@ =~= t.remove(oldest(t)));
            Some(e)
        } else {
            None
        };
        Observation { kind, evicted }
    }

    /// A linear scan, O(n) per eviction: at bounds this small it costs less
    /// than keeping the entries ordered by start time.
    fn oldest_position(&self) -> (r: usize)
        requires
            self.entries@.len() >= 1,
        ensures
            r == oldest(self@),
            r < self@.len(),
    {
        let n = self.entries.len();
        let mut best: usize = 0;
        let mut i: usize = 1;
        while i < n
            invariant
                n == self.entries@.len(),
                n == self@.len(),
                1 <= i <= n,
                best == oldest_upto(self@, i as int),
                best < i,
            decreases n - i,
        {
            if self.entries[i].start_time < self.entries[best].start_time {
                best = i;
            }
            i = i + 1;
        }
        best
    }

    /// Takes in a fragment stamped with the current time; see `observe`.
    pub fn observe_now(&mut self, fb: &Flashblock) -> (r: Observation)
        requires
            old(self).wf(),
            counters_fit(old(self)@, *fb),
        ensures
            final(self).wf(),
            valid_entries(final(self)@, final(self).spec_capacity()),
            final(self).spec_capacity() == old(self).spec_capacity(),
            exists|now: int| {
                let t = #[trigger] applied(old(self)@, *fb, now);
                &&& final(self)@ == observed(old(self)@, *fb, now, old(self).spec_capacity())
                &&& match r.evicted {
                    Some(e) => t.len() > old(self).spec_capacity() && e@ == t[oldest(t)],
                    None => t.len() <= old(self).spec_capacity(),
                }
            },
            r.kind == observation_kind(old(self)@, *fb),
    {
        let now = current_time_millis();
        self.observe(fb, now)
    }

    /// A copy of every resident assembly; the aggregator is not changed.
    pub fn snapshot(&self) -> (r: Vec<BlockAssembly>)
        ensures
            views(r@) == self@,
    {
        let n = self.entries.len();
        let mut out: Vec<BlockAssembly> = Vec::new();
        let mut i: usize = 0;
        while i < n
            invariant
                n == self.entries@.len(),
                0 <= i <= n,
                out@.len() == i,
                forall|j: int| 0 <= j < i ==> (#[trigger] out@[j])@ == self.entries@[j]@,
            decreases n - i,
        {
            out.push(self.entries[i].duplicate());
            i = i + 1;
        }
        assert(views(out@) =~= self@);
        out
    }
}

} // verus!
