use alloy_flashblocks::aggregator::{Aggregator, ObservationKind, DEFAULT_CAPACITY};
use alloy_flashblocks::flashblock::{Flashblock, FlashblockBase, FlashblockDiff, FlashblockMetadata};

fn base(block_number: &str) -> FlashblockBase {
    FlashblockBase {
        parent_hash: "0xparent".to_string(),
        fee_recipient: "0xfee".to_string(),
        block_number: block_number.to_string(),
        gas_limit: "0x1c9c380".to_string(),
        timestamp: "0x6792a1f0".to_string(),
        base_fee_per_gas: "0x3b9aca00".to_string(),
    }
}

fn diff(txs: &[&str]) -> FlashblockDiff {
    FlashblockDiff {
        state_root: None,
        block_hash: None,
        gas_used: None,
        transactions: Some(txs.iter().map(|t| t.to_string()).collect()),
        withdrawals: None,
    }
}

fn metadata() -> FlashblockMetadata {
    FlashblockMetadata { block_number: None, new_account_balances: None, receipts: None }
}

fn initial(id: &str, block_number: &str, txs: &[&str]) -> Flashblock {
    Flashblock {
        payload_id: id.to_string(),
        index: 0,
        base: Some(base(block_number)),
        diff: diff(txs),
        metadata: metadata(),
    }
}

fn later(id: &str, index: u64, txs: &[&str]) -> Flashblock {
    Flashblock { payload_id: id.to_string(), index, base: None, diff: diff(txs), metadata: metadata() }
}

#[test]
fn end_to_end_two_fragments() {
    let mut agg = Aggregator::new();
    let first = initial("0xA", "0x10", &["0x1", "0x2"]);
    let second = later("0xA", 1, &["0x3"]);
    assert!(agg.can_observe(&first));
    assert_eq!(agg.observe(&first, 1_000).kind, ObservationKind::Started);
    assert!(agg.can_observe(&second));
    assert_eq!(agg.observe(&second, 1_200).kind, ObservationKind::Extended);
    let snap = agg.snapshot();
    assert_eq!(snap.len(), 1);
    let a = &snap[0];
    assert_eq!(a.payload_id, "0xA");
    assert_eq!(a.block_number, 16);
    assert_eq!(a.sub_blocks, 2);
    assert_eq!(a.total_transactions, 3);
    assert_eq!(a.start_time, 1_000);
    assert_eq!(a.last_update, 1_200);
}

#[test]
fn counts_follow_fragments() {
    let mut agg = Aggregator::new();
    agg.observe(&initial("p", "0x1", &["a"]), 10);
    agg.observe(&initial("q", "0x2", &[]), 11);
    agg.observe(&later("p", 1, &["b", "c"]), 12);
    agg.observe(&later("q", 1, &["d"]), 13);
    agg.observe(&later("p", 2, &[]), 14);
    agg.observe(&later("p", 3, &["e", "f", "g"]), 15);
    let snap = agg.snapshot();
    let p = snap.iter().find(|a| a.payload_id == "p").unwrap();
    let q = snap.iter().find(|a| a.payload_id == "q").unwrap();
    assert_eq!(p.sub_blocks, 4);
    assert_eq!(p.total_transactions, 6);
    assert_eq!(q.sub_blocks, 2);
    assert_eq!(q.total_transactions, 1);
}

#[test]
fn orphan_diff_starts_assembly() {
    let mut agg = Aggregator::new();
    let obs = agg.observe(&later("0xB", 3, &["0x1"]), 500);
    assert_eq!(obs.kind, ObservationKind::Orphan);
    assert!(obs.evicted.is_none());
    let snap = agg.snapshot();
    assert_eq!(snap.len(), 1);
    assert_eq!(snap[0].sub_blocks, 1);
    assert_eq!(snap[0].total_transactions, 1);
    assert_eq!(snap[0].block_number, 0);
}

#[test]
fn initial_fragment_restarts_assembly() {
    let mut agg = Aggregator::new();
    agg.observe(&initial("r", "0x5", &["a"]), 1);
    agg.observe(&later("r", 1, &["b"]), 2);
    let obs = agg.observe(&initial("r", "0x6", &[]), 3);
    assert_eq!(obs.kind, ObservationKind::Restarted);
    let snap = agg.snapshot();
    assert_eq!(snap.len(), 1);
    assert_eq!(snap[0].sub_blocks, 1);
    assert_eq!(snap[0].total_transactions, 0);
    assert_eq!(snap[0].block_number, 6);
    assert_eq!(snap[0].start_time, 3);
}

#[test]
fn eviction_removes_oldest_start() {
    let mut agg = Aggregator::new();
    assert_eq!(agg.capacity(), DEFAULT_CAPACITY);
    for i in 0..10u64 {
        let id = format!("id{}", i);
        // start times are not in insertion order: id3 is the oldest
        let t = if i == 3 { 5 } else { 100 + i as i64 };
        let obs = agg.observe(&initial(&id, "0x1", &[]), t);
        assert!(obs.evicted.is_none());
    }
    // a later update of the oldest does not save it
    agg.observe(&later("id3", 1, &[]), 1_000);
    assert_eq!(agg.len(), 10);
    let obs = agg.observe(&initial("id10", "0x1", &[]), 2_000);
    let gone = obs.evicted.expect("one entry must go");
    assert_eq!(gone.payload_id, "id3");
    assert_eq!(agg.len(), 10);
    assert!(agg.snapshot().iter().all(|a| a.payload_id != "id3"));
    for i in 11..30u64 {
        agg.observe(&initial(&format!("id{}", i), "0x1", &[]), 3_000 + i as i64);
        assert!(agg.len() <= 10);
    }
}

#[test]
fn eviction_tie_takes_first() {
    let mut agg = Aggregator::with_capacity(2);
    agg.observe(&initial("a", "0x1", &[]), 7);
    agg.observe(&initial("b", "0x1", &[]), 7);
    let obs = agg.observe(&initial("c", "0x1", &[]), 7);
    assert_eq!(obs.evicted.unwrap().payload_id, "a");
}

#[test]
fn zero_capacity_keeps_nothing() {
    let mut agg = Aggregator::with_capacity(0);
    let obs = agg.observe(&initial("a", "0x1", &[]), 1);
    assert!(obs.evicted.is_some());
    assert!(agg.is_empty());
}

#[test]
fn snapshot_twice_is_identical() {
    let mut agg = Aggregator::new();
    agg.observe(&initial("x", "0x2", &["t"]), 1);
    agg.observe(&later("x", 1, &["u"]), 4);
    agg.observe(&initial("y", "0x3", &[]), 2);
    let a = agg.snapshot();
    let b = agg.snapshot();
    assert_eq!(a.len(), b.len());
    for (l, r) in a.iter().zip(b.iter()) {
        assert_eq!(l.payload_id, r.payload_id);
        assert_eq!(l.block_number, r.block_number);
        assert_eq!(l.sub_blocks, r.sub_blocks);
        assert_eq!(l.total_transactions, r.total_transactions);
        assert_eq!(l.start_time, r.start_time);
        assert_eq!(l.last_update, r.last_update);
    }
}

#[test]
fn last_update_never_goes_back() {
    let mut agg = Aggregator::new();
    agg.observe(&initial("z", "0x1", &[]), 100);
    agg.observe(&later("z", 1, &[]), 50);
    let snap = agg.snapshot();
    assert_eq!(snap[0].last_update, 100);
    assert_eq!(snap[0].sub_blocks, 2);
}

#[test]
fn observe_now_stamps_assembly() {
    let mut agg = Aggregator::new();
    let obs = agg.observe_now(&initial("n", "0x1", &[]));
    assert_eq!(obs.kind, ObservationKind::Started);
    let snap = agg.snapshot();
    assert!(snap[0].start_time > 0);
    assert_eq!(snap[0].start_time, snap[0].last_update);
}

#[test]
fn metadata_block_number_takes_precedence() {
    let mut fb = initial("m", "0x10", &[]);
    assert_eq!(fb.block_number(), Some(16));
    fb.metadata.block_number = Some(99);
    assert_eq!(fb.block_number(), Some(99));
    assert_eq!(fb.effective_block_number(), 99);
    let mut bad = initial("m", "0xzz", &[]);
    assert_eq!(bad.block_number(), None);
    assert_eq!(bad.effective_block_number(), 0);
    bad.base = None;
    assert_eq!(bad.block_number(), None);
    assert!(fb.is_initial());
    assert_eq!(fb.transaction_count(), 0);
    assert_eq!(later("m", 1, &["a", "b"]).transaction_count(), 2);
}

#[test]
fn counts_survive_eviction_of_others() {
    let mut agg = Aggregator::with_capacity(2);
    agg.observe(&initial("old", "0x1", &[]), 1);
    agg.observe(&initial("p", "0x2", &["a"]), 10);
    // each new payload pushes out the oldest other one, never "p"
    let first = agg.observe(&initial("q", "0x3", &[]), 2);
    assert_eq!(first.evicted.unwrap().payload_id, "old");
    agg.observe(&later("p", 1, &["b", "c"]), 21);
    let second = agg.observe(&initial("r", "0x4", &[]), 3);
    assert_eq!(second.evicted.unwrap().payload_id, "q");
    agg.observe(&later("p", 2, &["d"]), 31);
    let snap = agg.snapshot();
    let p = snap.iter().find(|a| a.payload_id == "p").unwrap();
    assert_eq!(p.sub_blocks, 3);
    assert_eq!(p.total_transactions, 4);
}

#[test]
fn orphan_older_than_everything_is_evicted_at_once() {
    let mut agg = Aggregator::with_capacity(1);
    agg.observe(&initial("a", "0x1", &[]), 100);
    let obs = agg.observe(&later("b", 2, &["x"]), 50);
    assert_eq!(obs.kind, ObservationKind::Orphan);
    let gone = obs.evicted.unwrap();
    assert_eq!(gone.payload_id, "b");
    assert_eq!(gone.sub_blocks, 1);
    assert_eq!(agg.snapshot()[0].payload_id, "a");
}
