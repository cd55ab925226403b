//! Derived metrics of an assembly, for periodic reporting. Rates are given in
//! hundredths, rounded half up, so that no floating point is needed.

use vstd::prelude::*;
use crate::aggregator::BlockAssembly;
use crate::hex::{decimal, decimal_digit, push_decimal};

verus! {

/// `x / d` rounded half up.
pub open spec fn rounded_div(x: nat, d: nat) -> nat
    recommends
        d > 0,
{
    (2 * x + d) / (2 * d)
}

pub open spec fn spec_elapsed_ms(a: BlockAssembly) -> nat {
    if a.last_update >= a.start_time {
        (a.last_update - a.start_time) as nat
    } else {
        0
    }
}

/// Average time between fragments in hundredths of a millisecond; only when
/// both the count and the duration are positive.
pub open spec fn spec_average_interval_centi(duration_ms: nat, sub_blocks: nat) -> Option<nat> {
    if sub_blocks > 0 && duration_ms > 0 {
        Some(rounded_div(duration_ms * 100, sub_blocks))
    } else {
        None
    }
}

/// Transactions per second in hundredths; zero over a zero duration.
pub open spec fn spec_tps_centi(total_transactions: nat, duration_ms: nat) -> nat {
    if duration_ms == 0 {
        0
    } else {
        rounded_div(total_transactions * 100_000, duration_ms)
    }
}

/// The time from the first to the latest fragment of an assembly, in
/// milliseconds (zero if the clock went back).
pub fn elapsed_ms(a: &BlockAssembly) -> (r: u64)
    ensures
        r == spec_elapsed_ms(*a),
{
    if a.last_update >= a.start_time {
        (a.last_update as i128 - a.start_time as i128) as u64
    } else {
        0
    }
}

pub fn average_interval_centi(duration_ms: u64, sub_blocks: u64) -> (r: Option<u128>)
    ensures
        r matches Some(v) ==> spec_average_interval_centi(duration_ms as nat, sub_blocks as nat) == Some(v as nat),
        r.is_none() == spec_average_interval_centi(duration_ms as nat, sub_blocks as nat).is_none(),
{
    if sub_blocks > 0 && duration_ms > 0 {
        let x = duration_ms as u128 * 100;
        let d = sub_blocks as u128;
        Some((2 * x + d) / (2 * d))
    } else {
        None
    }
}

pub fn tps_centi(total_transactions: u64, duration_ms: u64) -> (r: u128)
    ensures
        r == spec_tps_centi(total_transactions as nat, duration_ms as nat),
{
    if duration_ms == 0 {
        0
    } else {
        let x = total_transactions as u128 * 100_000;
        let d = duration_ms as u128;
        (2 * x + d) / (2 * d)
    }
}

pub open spec fn centi_text(v: nat) -> Seq<char> {
    decimal(v / 100) + seq!['.', decimal_digit((v % 100) / 10), decimal_digit(v % 10)]
}

/// A value in hundredths written with two decimals, `5000` as `50.00`.
pub fn format_centi(v: u128) -> (r: String)
    ensures
        r@ == centi_text(v as nat),
{
    let mut out = String::new();
    push_decimal(v / 100, &mut out);
    proof {
        reveal_strlit(".");
    }
    out.append(".");
    push_decimal((v % 100) / 10, &mut out);
    push_decimal(v % 10, &mut out);
    assert(out@ =~= centi_text(v as nat));
    out
}

/// The figures reported for one assembly.
#[derive(Debug)]
pub struct BlockReport {
    pub block_number: u64,
    pub payload_id: String,
    pub sub_blocks: u64,
    pub total_transactions: u64,
    pub duration_ms: u64,
    /// Present when there are fragments and time has passed.
    pub average_interval_centi: Option<u128>,
    /// Zero when no time has passed.
    pub tps_centi: u128,
}

pub open spec fn report_matches(a: BlockAssembly, r: BlockReport) -> bool {
    let d = spec_elapsed_ms(a);
    &&& r.block_number == a.block_number
    &&& r.payload_id@ == a.payload_id@
    &&& r.sub_blocks == a.sub_blocks
    &&& r.total_transactions == a.total_transactions
    &&& r.duration_ms == d
    &&& match spec_average_interval_centi(d, a.sub_blocks as nat) {
        Some(v) => r.average_interval_centi == Some(v as u128),
        None => r.average_interval_centi.is_none(),
    }
    &&& r.tps_centi == spec_tps_centi(a.total_transactions as nat, d)
}

/// The figures of one assembly.
pub fn report(a: &BlockAssembly) -> (r: BlockReport)
    ensures
        report_matches(*a, r),
{
    let d = elapsed_ms(a);
    BlockReport {
        block_number: a.block_number,
        payload_id: a.payload_id.clone(),
        sub_blocks: a.sub_blocks,
        total_transactions: a.total_transactions,
        duration_ms: d,
        average_interval_centi: average_interval_centi(d, a.sub_blocks),
        tps_centi: tps_centi(a.total_transactions, d),
    }
}

/// The figures of every assembly of a snapshot, in its order.
pub fn report_all(snapshot: &Vec<BlockAssembly>) -> (r: Vec<BlockReport>)
    ensures
        r@.len() == snapshot@.len(),
        forall|i: int| 0 <= i < r@.len() ==> report_matches(snapshot@[i], #[trigger] r@[i]),
{
    let n = snapshot.len();
    let mut out: Vec<BlockReport> = Vec::new();
    let mut i: usize = 0;
    while i < n
        invariant
            n == snapshot@.len(),
            0 <= i <= n,
            out@.len() == i,
            forall|j: int| 0 <= j < i ==> report_matches(snapshot@[j], #[trigger] out@[j]),
        decreases n - i,
    {
        out.push(report(&snapshot[i]));
        i = i + 1;
    }
    out
}

} // verus!
