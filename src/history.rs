//! Runs of observations: what an aggregator holds after a sequence of
//! fragments, and the laws that hold of every run.

use vstd::prelude::*;
use vstd::seq_lib::seq_to_set_is_finite;
use vstd::set_lib::lemma_len_subset;
use crate::aggregator::{
    applied, evicted, fresh_assembly, observation_kind, observed, oldest, lemma_applied_valid, lemma_evicted_valid, lemma_oldest,
    lemma_observed_valid, lemma_position_of_found, position_of, valid_entries, views, Aggregator, AssemblyModel,
    BlockAssembly, ObservationKind,
};
use crate::flashblock::Flashblock;

verus! {

/// The entries after observing `fbs[i]` at `times[i]`, in order, from `s`.
pub open spec fn observed_all(
    s: Seq<AssemblyModel>,
    fbs: Seq<Flashblock>,
    times: Seq<int>,
    capacity: nat,
) -> Seq<AssemblyModel>
    decreases fbs.len(),
{
    if fbs.len() == 0 || times.len() == 0 {
        s
    } else {
        observed(
            observed_all(s, fbs.drop_last(), times.drop_last(), capacity),
            fbs.last(),
            times.last(),
            capacity,
        )
    }
}

/// How many of the fragments belong to payload `id`.
pub open spec fn fragment_count(fbs: Seq<Flashblock>, id: Seq<char>) -> nat
    decreases fbs.len(),
{
    if fbs.len() == 0 {
        0
    } else {
        fragment_count(fbs.drop_last(), id) + if fbs.last().payload_id@ == id { 1nat } else { 0nat }
    }
}

/// How many transactions the fragments of payload `id` carry together.
pub open spec fn fragment_transactions(fbs: Seq<Flashblock>, id: Seq<char>) -> nat
    decreases fbs.len(),
{
    if fbs.len() == 0 {
        0
    } else {
        fragment_transactions(fbs.drop_last(), id) + if fbs.last().payload_id@ == id {
            fbs.last().spec_transaction_count()
        } else {
            0nat
        }
    }
}

/// The distinct payload ids among the fragments.
pub open spec fn fragment_ids(fbs: Seq<Flashblock>) -> Set<Seq<char>> {
    fbs.map_values(|f: Flashblock| f.payload_id@).to_set()
}

pub open spec fn resident_ids(s: Seq<AssemblyModel>) -> Set<Seq<char>> {
    s.map_values(|a: AssemblyModel| a.payload_id).to_set()
}

/// No fragment of payload `id` is an initial one, but for its first.
pub open spec fn initial_only_first(fbs: Seq<Flashblock>, id: Seq<char>) -> bool {
    forall|i: int, j: int|
        0 <= j < i < fbs.len() && (#[trigger] fbs[i]).payload_id@ == id && fbs[i].index == 0
            ==> (#[trigger] fbs[j]).payload_id@ != id
}

proof fn lemma_count_zero(fbs: Seq<Flashblock>, id: Seq<char>)
    ensures
        fragment_count(fbs, id) == 0 <==> forall|j: int| 0 <= j < fbs.len() ==> (#[trigger] fbs[j]).payload_id@ != id,
        fragment_count(fbs, id) == 0 ==> fragment_transactions(fbs, id) == 0,
    decreases fbs.len(),
{
    if fbs.len() > 0 {
        let p = fbs.drop_last();
        lemma_count_zero(p, id);
        assert forall|j: int| 0 <= j < p.len() implies #[trigger] p[j] == fbs[j] by {}
        if fragment_count(fbs, id) == 0 {
            assert forall|j: int| 0 <= j < fbs.len() implies (#[trigger] fbs[j]).payload_id@ != id by {
                if j < p.len() {
                    assert(p[j] == fbs[j]);
                }
            }
        }
    }
}

proof fn lemma_resident_card(s: Seq<AssemblyModel>, capacity: nat)
    requires
        valid_entries(s, capacity),
    ensures
        s.len() == resident_ids(s).len(),
{
    let m = s.map_values(|a: AssemblyModel| a.payload_id);
    assert(m.no_duplicates()) by {
        assert forall|i: int, j: int| 0 <= i < m.len() && 0 <= j < m.len() && i != j implies m[i] != m[j] by {
            assert(s[i].payload_id != s[j].payload_id);
        }
    }
    m.unique_seq_to_set();
}

/// The whole run, from empty, stays valid, never evicts, and holds the
/// right counters for `id`.
proof fn lemma_run(fbs: Seq<Flashblock>, times: Seq<int>, capacity: nat, id: Seq<char>)
    requires
        fbs.len() == times.len(),
        fragment_ids(fbs).len() <= capacity,
        initial_only_first(fbs, id),
    ensures
        valid_entries(observed_all(Seq::empty(), fbs, times, capacity), capacity),
        resident_ids(observed_all(Seq::empty(), fbs, times, capacity)).subset_of(fragment_ids(fbs)),
        fragment_count(fbs, id) == 0 ==> position_of(observed_all(Seq::empty(), fbs, times, capacity), id) < 0,
        fragment_count(fbs, id) > 0 ==> position_of(observed_all(Seq::empty(), fbs, times, capacity), id) >= 0,
        fragment_count(fbs, id) > 0 ==> observed_all(Seq::empty(), fbs, times, capacity)[position_of(
            observed_all(Seq::empty(), fbs, times, capacity),
            id,
        )].sub_blocks == fragment_count(fbs, id),
        fragment_count(fbs, id) > 0 ==> observed_all(Seq::empty(), fbs, times, capacity)[position_of(
            observed_all(Seq::empty(), fbs, times, capacity),
            id,
        )].total_transactions == fragment_transactions(fbs, id),
    decreases fbs.len(),
{
    broadcast use seq_to_set_is_finite;

    let s = observed_all(Seq::empty(), fbs, times, capacity);
    if fbs.len() == 0 {
        assert(resident_ids(s) =~= Set::empty());
    } else {
        let pf = fbs.drop_last();
        let pt = times.drop_last();
        let f = fbs.last();
        let now = times.last();
        assert(fragment_ids(pf).subset_of(fragment_ids(fbs))) by {
            assert forall|x: Seq<char>| fragment_ids(pf).contains(x) implies fragment_ids(fbs).contains(x) by {
                let m = pf.map_values(|g: Flashblock| g.payload_id@);
                let i = choose|i: int| 0 <= i < m.len() && m[i] == x;
                assert(fbs.map_values(|g: Flashblock| g.payload_id@)[i] == x);
            }
        }
        lemma_len_subset(fragment_ids(pf), fragment_ids(fbs));
        assert(initial_only_first(pf, id)) by {
            assert forall|i: int, j: int|
                0 <= j < i < pf.len() && (#[trigger] pf[i]).payload_id@ == id && pf[i].index == 0
                    implies (#[trigger] pf[j]).payload_id@ != id by {
                assert(pf[i] == fbs[i] && pf[j] == fbs[j]);
            }
        }
        lemma_run(pf, pt, capacity, id);
        let prev = observed_all(Seq::empty(), pf, pt, capacity);
        let t = applied(prev, f, now);
        lemma_position_of_found(prev, f.payload_id@);
        lemma_position_of_found(prev, id);
        lemma_observed_valid(prev, f, now, capacity);
        // what is resident after taking `f` in came from the fragments
        assert(resident_ids(t).subset_of(fragment_ids(fbs))) by {
            assert forall|x: Seq<char>| resident_ids(t).contains(x) implies fragment_ids(fbs).contains(x) by {
                let m = t.map_values(|a: AssemblyModel| a.payload_id);
                let i = choose|i: int| 0 <= i < m.len() && m[i] == x;
                let fm = fbs.map_values(|g: Flashblock| g.payload_id@);
                if i < prev.len() {
                    assert(t[i].payload_id == prev[i].payload_id);
                    assert(resident_ids(prev).contains(x)) by {
                        assert(prev.map_values(|a: AssemblyModel| a.payload_id)[i] == x);
                    }
                } else {
                    assert(fm[fbs.len() - 1] == x);
                }
            }
        }
        lemma_applied_valid(prev, f, now, capacity);
        lemma_resident_card(t, capacity + 1);
        lemma_len_subset(resident_ids(t), fragment_ids(fbs));
        assert(evicted(t, capacity) == t);
        assert(s == t);
        lemma_position_of_found(t, id);
        lemma_count_zero(pf, id);
        lemma_count_zero(fbs, id);
        let p = position_of(t, id);
        let pos_f = position_of(prev, f.payload_id@);
        if f.payload_id@ != id {
            assert(fragment_count(fbs, id) == fragment_count(pf, id));
            assert(fragment_transactions(fbs, id) == fragment_transactions(pf, id));
            if fragment_count(fbs, id) > 0 {
                let q = position_of(prev, id);
                assert(q != pos_f);
                assert(t[q] == prev[q]);
                assert(p == q) by {
                    if p != q {
                        assert(t[p].payload_id != t[q].payload_id);
                    }
                }
            }
        } else {
            assert(fragment_count(fbs, id) == fragment_count(pf, id) + 1);
            if fragment_count(pf, id) > 0 {
                let j = choose|j: int| 0 <= j < pf.len() && (#[trigger] pf[j]).payload_id@ == id;
                assert(pf[j] == fbs[j]);
                assert(f.index != 0) by {
                    assert(fbs[fbs.len() - 1] == f);
                }
                assert(t[pos_f].payload_id == id);
                assert(p == pos_f);
            } else {
                assert(pos_f < 0);
                assert(t[prev.len() as int].payload_id == id);
                assert(p == prev.len());
            }
        }
    }
}

/// Counting, for runs that cannot evict: when a run from an empty aggregator
/// names no more payloads than the bound, and a payload's only initial
/// fragment, if any, is its first, then its assembly has one sub-block per
/// fragment of that payload and the sum of their transaction counts.
pub proof fn lemma_counts_within_capacity(
    fbs: Seq<Flashblock>,
    times: Seq<int>,
    capacity: nat,
    id: Seq<char>,
)
    requires
        fbs.len() == times.len(),
        fragment_ids(fbs).len() <= capacity,
        initial_only_first(fbs, id),
        fragment_count(fbs, id) > 0,
    ensures
        ({
            let s = observed_all(Seq::empty(), fbs, times, capacity);
            let p = position_of(s, id);
            &&& 0 <= p < s.len()
            &&& s[p].payload_id == id
            &&& s[p].sub_blocks == fragment_count(fbs, id)
            &&& s[p].total_transactions == fragment_transactions(fbs, id)
        }),
{
    lemma_run(fbs, times, capacity, id);
    lemma_position_of_found(observed_all(Seq::empty(), fbs, times, capacity), id);
}

/// At no step of the run is the assembly of `id` the one evicted.
pub open spec fn never_evicted(
    s: Seq<AssemblyModel>,
    fbs: Seq<Flashblock>,
    times: Seq<int>,
    capacity: nat,
    id: Seq<char>,
) -> bool
    decreases fbs.len(),
{
    if fbs.len() == 0 || times.len() == 0 {
        true
    } else {
        let t = applied(observed_all(s, fbs.drop_last(), times.drop_last(), capacity), fbs.last(), times.last());
        &&& never_evicted(s, fbs.drop_last(), times.drop_last(), capacity, id)
        &&& t.len() > capacity ==> t[oldest(t)].payload_id != id
    }
}

/// The first fragment of `id` in the run, if any, is an initial one or finds
/// no assembly of `id`.
pub open spec fn starts_fresh(s: Seq<AssemblyModel>, fbs: Seq<Flashblock>, id: Seq<char>) -> bool {
    forall|i: int|
        0 <= i < fbs.len() && (#[trigger] fbs[i]).payload_id@ == id
            && (forall|j: int| 0 <= j < i ==> (#[trigger] fbs[j]).payload_id@ != id)
            ==> fbs[i].index == 0 || position_of(s, id) < 0
}

/// Evicting an entry other than that of `id` keeps that entry as it was.
proof fn lemma_kept(t: Seq<AssemblyModel>, capacity: nat, id: Seq<char>)
    requires
        valid_entries(t, capacity + 1),
        t.len() > capacity ==> t[oldest(t)].payload_id != id,
    ensures
        position_of(evicted(t, capacity), id) < 0 <==> position_of(t, id) < 0,
        position_of(t, id) >= 0 ==> evicted(t, capacity)[position_of(evicted(t, capacity), id)] == t[position_of(t, id)],
{
    lemma_evicted_valid(t, capacity);
    let u = evicted(t, capacity);
    lemma_position_of_found(t, id);
    lemma_position_of_found(u, id);
    if t.len() > capacity {
        lemma_oldest(t, t.len() as int);
        let k = oldest(t);
        assert forall|i: int| 0 <= i < u.len() implies #[trigger] u[i] == t[if i < k { i } else { i + 1 }] by {}
        let q = position_of(t, id);
        if q >= 0 {
            let q2 = if q < k { q } else { q - 1 };
            assert(u[q2] == t[q]);
            let p = position_of(u, id);
            assert(p == q2) by {
                if p != q2 {
                    assert(u[p].payload_id != u[q2].payload_id);
                }
            }
        } else {
            assert forall|i: int| 0 <= i < u.len() implies (#[trigger] u[i]).payload_id != id by {
                assert(u[i] == t[if i < k { i } else { i + 1 }]);
            }
        }
    }
}

/// One observation, as seen from the assembly of `id`: `count` fragments of
/// it so far, carrying `txs` transactions; `absent` says whether the run
/// started without its assembly.
proof fn lemma_count_step(
    prev: Seq<AssemblyModel>,
    f: Flashblock,
    now: int,
    capacity: nat,
    id: Seq<char>,
    count: nat,
    txs: nat,
    absent: bool,
)
    requires
        valid_entries(prev, capacity),
        applied(prev, f, now).len() > capacity ==> applied(prev, f, now)[oldest(applied(prev, f, now))].payload_id != id,
        count == 0 ==> (position_of(prev, id) < 0 <==> absent) && txs == 0,
        count > 0 ==> position_of(prev, id) >= 0 && prev[position_of(prev, id)].sub_blocks == count
            && prev[position_of(prev, id)].total_transactions == txs,
        f.payload_id@ == id && count > 0 ==> f.index != 0,
        f.payload_id@ == id && count == 0 ==> f.index == 0 || absent,
    ensures
        valid_entries(observed(prev, f, now, capacity), capacity),
        f.payload_id@ != id && count == 0 ==> (position_of(observed(prev, f, now, capacity), id) < 0 <==> absent),
        f.payload_id@ != id && count > 0 ==> {
            let u = observed(prev, f, now, capacity);
            &&& position_of(u, id) >= 0
            &&& u[position_of(u, id)].sub_blocks == count
            &&& u[position_of(u, id)].total_transactions == txs
        },
        f.payload_id@ == id ==> {
            let u = observed(prev, f, now, capacity);
            &&& position_of(u, id) >= 0
            &&& u[position_of(u, id)].sub_blocks == count + 1
            &&& u[position_of(u, id)].total_transactions == txs + f.spec_transaction_count()
        },
{
    let t = applied(prev, f, now);
    lemma_observed_valid(prev, f, now, capacity);
    lemma_applied_valid(prev, f, now, capacity);
    lemma_position_of_found(prev, f.payload_id@);
    lemma_position_of_found(prev, id);
    lemma_position_of_found(t, id);
    lemma_kept(t, capacity, id);
    let pos_f = position_of(prev, f.payload_id@);
    let q = position_of(prev, id);
    let tq = position_of(t, id);
    let u = observed(prev, f, now, capacity);
    assert(u == evicted(t, capacity));
    if f.payload_id@ != id {
        if q >= 0 {
            assert(q != pos_f);
            assert(t[q] == prev[q]);
            assert(tq == q) by {
                if tq != q {
                    assert(t[tq].payload_id != t[q].payload_id);
                }
            }
        } else {
            assert forall|i: int| 0 <= i < t.len() implies (#[trigger] t[i]).payload_id != id by {
                if i < prev.len() {
                    assert(t[i].payload_id == prev[i].payload_id);
                }
            }
        }
    } else if count > 0 {
        assert(t[pos_f].payload_id == id);
        assert(tq == pos_f);
        assert(t[tq].sub_blocks == count + 1);
        assert(t[tq].total_transactions == txs + f.spec_transaction_count());
        assert(u[position_of(u, id)] == t[tq]);
    } else if pos_f >= 0 {
        assert(f.index == 0);
        assert(t[pos_f].payload_id == id);
        assert(tq == pos_f);
        assert(t[tq].sub_blocks == 1);
        assert(u[position_of(u, id)] == t[tq]);
    } else {
        assert(t[prev.len() as int].payload_id == id);
        assert(tq == prev.len());
        assert(u[position_of(u, id)] == t[tq]);
    }
}

/// Counting: a payload's assembly has one sub-block per fragment of it in a
/// run, and the sum of their transaction counts, when the payload's only
/// initial fragment, if any, is its first, that first fragment is initial or
/// finds no assembly, and the assembly is never the one evicted. Fragments of
/// other payloads may interleave, and the run may start from any valid state.
pub proof fn lemma_counts_match_fragments(
    s: Seq<AssemblyModel>,
    fbs: Seq<Flashblock>,
    times: Seq<int>,
    capacity: nat,
    id: Seq<char>,
)
    requires
        valid_entries(s, capacity),
        fbs.len() == times.len(),
        initial_only_first(fbs, id),
        starts_fresh(s, fbs, id),
        never_evicted(s, fbs, times, capacity, id),
    ensures
        valid_entries(observed_all(s, fbs, times, capacity), capacity),
        fragment_count(fbs, id) == 0 ==> (position_of(observed_all(s, fbs, times, capacity), id) < 0
            <==> position_of(s, id) < 0),
        fragment_count(fbs, id) > 0 ==> {
            let u = observed_all(s, fbs, times, capacity);
            let p = position_of(u, id);
            &&& 0 <= p < u.len()
            &&& u[p].payload_id == id
            &&& u[p].sub_blocks == fragment_count(fbs, id)
            &&& u[p].total_transactions == fragment_transactions(fbs, id)
        },
    decreases fbs.len(),
{
    let u = observed_all(s, fbs, times, capacity);
    if fbs.len() > 0 {
        let pf = fbs.drop_last();
        let pt = times.drop_last();
        let f = fbs.last();
        assert(fbs[fbs.len() - 1] == f);
        assert forall|i: int, j: int|
            0 <= j < i < pf.len() && (#[trigger] pf[i]).payload_id@ == id && pf[i].index == 0
                implies (#[trigger] pf[j]).payload_id@ != id by {
            assert(pf[i] == fbs[i] && pf[j] == fbs[j]);
        }
        assert forall|i: int|
            0 <= i < pf.len() && (#[trigger] pf[i]).payload_id@ == id
                && (forall|j: int| 0 <= j < i ==> (#[trigger] pf[j]).payload_id@ != id)
                implies pf[i].index == 0 || position_of(s, id) < 0 by {
            assert(pf[i] == fbs[i]);
            assert forall|j: int| 0 <= j < i implies (#[trigger] fbs[j]).payload_id@ != id by {
                assert(pf[j] == fbs[j]);
            }
        }
        lemma_counts_match_fragments(s, pf, pt, capacity, id);
        lemma_count_zero(pf, id);
        if f.payload_id@ == id {
            if fragment_count(pf, id) > 0 {
                let j = choose|j: int| 0 <= j < pf.len() && (#[trigger] pf[j]).payload_id@ == id;
                assert(pf[j] == fbs[j]);
            } else {
                assert forall|j: int| 0 <= j < fbs.len() - 1 implies (#[trigger] fbs[j]).payload_id@ != id by {
                    assert(pf[j] == fbs[j]);
                }
            }
        }
        let prev = observed_all(s, pf, pt, capacity);
        lemma_count_step(
            prev,
            f,
            times.last(),
            capacity,
            id,
            fragment_count(pf, id),
            fragment_transactions(pf, id),
            position_of(s, id) < 0,
        );
        lemma_position_of_found(u, id);
    }
}

proof fn lemma_ids_of(s: Seq<AssemblyModel>, x: Seq<char>)
    ensures
        resident_ids(s).contains(x) <==> exists|i: int| 0 <= i < s.len() && (#[trigger] s[i]).payload_id == x,
{
    let m = s.map_values(|a: AssemblyModel| a.payload_id);
    if resident_ids(s).contains(x) {
        let i = choose|i: int| 0 <= i < m.len() && m[i] == x;
        assert(s[i].payload_id == x);
    }
    if exists|i: int| 0 <= i < s.len() && (#[trigger] s[i]).payload_id == x {
        let i = choose|i: int| 0 <= i < s.len() && (#[trigger] s[i]).payload_id == x;
        assert(m[i] == x);
    }
}

/// Eviction: the resident count never exceeds the bound. Taking a fragment
/// in adds its payload id to the resident ones; when that makes more ids than
/// the bound, exactly the id of one assembly with the least start time goes,
/// else none goes. So the count is the smaller of the bound and the number of
/// ids.
pub proof fn lemma_eviction(s: Seq<AssemblyModel>, fb: Flashblock, now: int, capacity: nat)
    requires
        valid_entries(s, capacity),
    ensures
        observed(s, fb, now, capacity).len() <= capacity,
        resident_ids(applied(s, fb, now)) == resident_ids(s).insert(fb.payload_id@),
        observed(s, fb, now, capacity).len() == if resident_ids(s).insert(fb.payload_id@).len() > capacity {
            capacity
        } else {
            resident_ids(s).insert(fb.payload_id@).len()
        },
        ({
            let t = applied(s, fb, now);
            let u = observed(s, fb, now, capacity);
            &&& t.len() > capacity ==> {
                &&& 0 <= oldest(t) < t.len()
                &&& u == t.remove(oldest(t))
                &&& resident_ids(u) == resident_ids(s).insert(fb.payload_id@).remove(t[oldest(t)].payload_id)
                &&& forall|j: int| 0 <= j < t.len() ==> t[oldest(t)].start_time <= (#[trigger] t[j]).start_time
            }
            &&& t.len() <= capacity ==> u == t && resident_ids(u) == resident_ids(s).insert(fb.payload_id@)
        }),
{
    broadcast use vstd::seq_lib::seq_to_set_is_finite;

    lemma_observed_valid(s, fb, now, capacity);
    lemma_applied_valid(s, fb, now, capacity);
    lemma_position_of_found(s, fb.payload_id@);
    let t = applied(s, fb, now);
    let u = observed(s, fb, now, capacity);
    let id = fb.payload_id@;
    let p = position_of(s, id);
    assert forall|x: Seq<char>| resident_ids(t).contains(x) <==> resident_ids(s).insert(id).contains(x) by {
        lemma_ids_of(t, x);
        lemma_ids_of(s, x);
        if resident_ids(t).contains(x) {
            let i = choose|i: int| 0 <= i < t.len() && (#[trigger] t[i]).payload_id == x;
            if i < s.len() && i != p {
                assert(t[i] == s[i]);
            }
        }
        if resident_ids(s).contains(x) {
            let i = choose|i: int| 0 <= i < s.len() && (#[trigger] s[i]).payload_id == x;
            assert(t[i].payload_id == s[i].payload_id);
        }
        if x == id {
            if p < 0 {
                assert(t[s.len() as int].payload_id == id);
            } else {
                assert(t[p].payload_id == id);
            }
        }
    }
    assert(resident_ids(t) =~= resident_ids(s).insert(id));
    lemma_resident_card(t, capacity + 1);
    lemma_resident_card(u, capacity);
    if t.len() > capacity {
        lemma_oldest(t, t.len() as int);
        let k = oldest(t);
        assert(u == t.remove(k));
        assert forall|i: int| 0 <= i < u.len() implies #[trigger] u[i] == t[if i < k { i } else { i + 1 }] by {}
        assert forall|x: Seq<char>| resident_ids(u).contains(x) <==> resident_ids(t).remove(t[k].payload_id).contains(x) by {
            lemma_ids_of(t, x);
            lemma_ids_of(u, x);
            if resident_ids(u).contains(x) {
                let i = choose|i: int| 0 <= i < u.len() && (#[trigger] u[i]).payload_id == x;
                let i2 = if i < k { i } else { i + 1 };
                assert(u[i] == t[i2]);
                assert(t[i2].payload_id != t[k].payload_id);
            }
            if resident_ids(t).remove(t[k].payload_id).contains(x) {
                let i = choose|i: int| 0 <= i < t.len() && (#[trigger] t[i]).payload_id == x;
                assert(i != k);
                let i2 = if i < k { i } else { i - 1 };
                assert(u[i2] == t[i]);
            }
        }
        assert(resident_ids(u) =~= resident_ids(t).remove(t[k].payload_id));
    }
}

/// Orphan diffs: a diff fragment for a payload with no assembly starts one
/// with a single sub-block, its transactions and both times at `now`, and is
/// reported as an orphan, never as an error. The new assembly stays resident
/// unless it is itself the one evicted, which happens only when every other
/// assembly started later than `now`; so with a clock that does not go back
/// and room for one assembly, it stays.
pub proof fn lemma_orphan_diff(s: Seq<AssemblyModel>, fb: Flashblock, now: int, capacity: nat)
    requires
        valid_entries(s, capacity),
        fb.index != 0,
        position_of(s, fb.payload_id@) < 0,
    ensures
        observation_kind(s, fb) == ObservationKind::Orphan,
        applied(s, fb, now) == s.push(fresh_assembly(fb, now)),
        fresh_assembly(fb, now).sub_blocks == 1,
        fresh_assembly(fb, now).total_transactions == fb.spec_transaction_count(),
        fresh_assembly(fb, now).start_time == now && fresh_assembly(fb, now).last_update == now,
        ({
            let t = applied(s, fb, now);
            let u = observed(s, fb, now, capacity);
            let p = position_of(u, fb.payload_id@);
            &&& !(t.len() > capacity && oldest(t) == s.len()) ==> 0 <= p < u.len() && u[p] == fresh_assembly(fb, now)
            &&& (t.len() > capacity && oldest(t) == s.len()) ==> {
                &&& p < 0
                &&& forall|i: int| 0 <= i < s.len() ==> (#[trigger] s[i]).start_time > now
            }
        }),
        capacity >= 1 && (forall|i: int| 0 <= i < s.len() ==> (#[trigger] s[i]).start_time <= now) ==> {
            let u = observed(s, fb, now, capacity);
            let p = position_of(u, fb.payload_id@);
            &&& 0 <= p < u.len()
            &&& u[p] == fresh_assembly(fb, now)
        },
{
    let t = applied(s, fb, now);
    let fresh = fresh_assembly(fb, now);
    lemma_observed_valid(s, fb, now, capacity);
    let u = observed(s, fb, now, capacity);
    let last = s.len() as int;
    assert(t[last] == fresh);
    lemma_position_of_found(u, fb.payload_id@);
    if t.len() > capacity {
        lemma_oldest(t, t.len() as int);
        let k = oldest(t);
        if k == last {
            assert(u =~= s);
            assert forall|i: int| 0 <= i < s.len() implies (#[trigger] s[i]).start_time > now by {
                assert(t[i] == s[i]);
            }
        } else {
            assert(u[last - 1] == t[last]);
            let p = position_of(u, fb.payload_id@);
            assert(p == last - 1) by {
                if p != last - 1 {
                    assert(u[p].payload_id != u[last - 1].payload_id);
                }
            }
        }
    } else {
        assert(u[last] == fresh);
        let p = position_of(u, fb.payload_id@);
        assert(p == last) by {
            if p != last {
                assert(u[p].payload_id != u[last].payload_id);
            }
        }
    }
    if capacity >= 1 && t.len() > capacity {
        assert(t[0] == s[0]);
    }
}

/// Reading is idempotent: snapshots of one aggregator with no observation in
/// between are equal.
pub proof fn lemma_snapshots_agree(agg: Aggregator, a: Seq<BlockAssembly>, b: Seq<BlockAssembly>)
    requires
        views(a) == agg@,
        views(b) == agg@,
    ensures
        views(a) == views(b),
{
}

} // verus!
