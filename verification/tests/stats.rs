use sigverify::stats::{ShredSigVerifyStats, SigverifyWorkerStats};
use std::time::{Duration, Instant};

fn worker(n: usize) -> SigverifyWorkerStats {
    SigverifyWorkerStats {
        num_verify_calls: n,
        num_verify_failed: n + 1,
        num_discards_post: n + 2,
        num_invalid_retransmitter: n + 3,
        num_retranmitter_signature_skipped: n + 4,
        num_retranmitter_signature_verified: n + 5,
        num_unknown_slot_leader: n + 6,
        num_unknown_turbine_parent: n + 7,
    }
}

#[test]
fn default_counts_nothing() {
    let stats = SigverifyWorkerStats::default();
    assert_eq!(stats.num_verify_calls, 0);
    assert_eq!(stats.num_verify_failed, 0);
    assert_eq!(stats.num_discards_post, 0);
    assert_eq!(stats.num_unknown_turbine_parent, 0);
}

#[test]
fn accumulate_adds_every_counter() {
    let mut stats = worker(10);
    stats.accumulate(worker(100));
    assert_eq!(stats.num_verify_calls, 110);
    assert_eq!(stats.num_verify_failed, 112);
    assert_eq!(stats.num_discards_post, 114);
    assert_eq!(stats.num_invalid_retransmitter, 116);
    assert_eq!(stats.num_retranmitter_signature_skipped, 118);
    assert_eq!(stats.num_retranmitter_signature_verified, 120);
    assert_eq!(stats.num_unknown_slot_leader, 122);
    assert_eq!(stats.num_unknown_turbine_parent, 124);
}

#[test]
fn commit_adds_all_but_the_calls() {
    let mut stats = ShredSigVerifyStats::new(Instant::now());
    stats.num_discards_post = 1000;
    worker(10).commit(&mut stats);
    assert_eq!(stats.num_discards_post, 1012);
    assert_eq!(stats.num_invalid_retransmitter, 13);
    assert_eq!(stats.num_retranmitter_signature_skipped, 14);
    assert_eq!(stats.num_retranmitter_signature_verified, 15);
    assert_eq!(stats.num_unknown_slot_leader, 16);
    assert_eq!(stats.num_unknown_turbine_parent, 17);
    assert_eq!(stats.num_iters, 0);
    assert_eq!(stats.num_discards_pre, 0);
}

#[test]
fn new_stats_are_not_submitted_at_once() {
    let now = Instant::now();
    let mut stats = ShredSigVerifyStats::new(now);
    stats.num_iters = 3;
    assert!(stats.maybe_submit().is_none());
    assert_eq!(stats.num_iters, 3);
    assert_eq!(stats.since, now);
}

#[test]
fn old_stats_are_submitted_and_reset() {
    let Some(long_ago) = Instant::now().checked_sub(Duration::from_secs(3)) else {
        return;
    };
    let mut stats = ShredSigVerifyStats::new(long_ago);
    stats.num_iters = 3;
    let point = stats.maybe_submit().unwrap();
    assert_eq!(point[0], ("num_iters", 3));
    assert_eq!(stats.num_iters, 0);
    assert!(stats.since > long_ago);
}

#[test]
fn the_cadence_is_two_seconds() {
    let start = Instant::now();
    let mut stats = ShredSigVerifyStats::new(start);
    stats.num_packets = 7;
    assert!(stats.submit_after(2_000_000_000, Instant::now()).is_none());
    assert_eq!(stats.num_packets, 7);
    assert!(stats.submit_after(2_000_000_001, Instant::now()).is_some());
    assert_eq!(stats.num_packets, 0);
}

#[test]
fn no_count_is_lost_over_several_submissions() {
    let mut stats = ShredSigVerifyStats::new(Instant::now());
    let mut submitted = 0;
    let mut counted = 0;
    for step in 1..=20u64 {
        stats.num_packets += step as usize;
        counted += step as i64;
        let elapsed_nanos = u128::from(step % 3) * 1_500_000_000;
        if let Some(point) = stats.submit_after(elapsed_nanos, Instant::now()) {
            assert_eq!(step % 3, 2);
            submitted += point[2].1;
        }
    }
    assert!(submitted > 0);
    assert_eq!(submitted + stats.num_packets as i64, counted);
}

#[test]
fn every_counter_is_submitted_under_its_name() {
    let mut stats = ShredSigVerifyStats::new(Instant::now());
    stats.num_iters = 1;
    stats.num_batches = 2;
    stats.num_packets = 3;
    stats.num_discards_pre = 4;
    stats.num_deduper_saturations = 5;
    stats.num_discards_post = 6;
    stats.num_duplicates = 7;
    stats.num_invalid_retransmitter = 8;
    stats.num_retranmitter_signature_skipped = 9;
    stats.num_retranmitter_signature_verified = 10;
    stats.num_retransmit_stage_overflow_shreds = 11;
    stats.num_retransmit_shreds = 12;
    stats.num_unknown_block_location = 13;
    stats.num_unknown_slot_leader = 14;
    stats.num_unknown_turbine_parent = 15;
    stats.elapsed_micros = 16;
    stats.verify_and_resign_micros = 17;
    assert_eq!(
        stats.datapoint(),
        vec![
            ("num_iters", 1),
            ("num_batches", 2),
            ("num_packets", 3),
            ("num_discards_pre", 4),
            ("num_deduper_saturations", 5),
            ("num_discards_post", 6),
            ("num_duplicates", 7),
            ("num_invalid_retransmitter", 8),
            ("num_retranmitter_signature_skipped", 9),
            ("num_retranmitter_signature_verified", 10),
            ("num_retransmit_stage_overflow_shreds", 11),
            ("num_retransmit_shreds", 12),
            ("num_unknown_block_location", 13),
            ("num_unknown_slot_leader", 14),
            ("num_unknown_turbine_parent", 15),
            ("elapsed_micros", 16),
            ("verify_and_resign_micros", 17),
        ]
    );
}

#[test]
fn saturations_and_overflows_are_counted() {
    let mut stats = ShredSigVerifyStats::new(Instant::now());
    stats.record_deduper_reset(false);
    assert_eq!(stats.num_deduper_saturations, 0);
    stats.record_deduper_reset(true);
    assert_eq!(stats.num_deduper_saturations, 1);
    stats.record_overflow(12);
    assert_eq!(stats.num_retransmit_stage_overflow_shreds, 12);
}

#[test]
fn room_is_that_of_the_fullest_counter() {
    let mut stats = ShredSigVerifyStats::new(Instant::now());
    assert!(stats.has_room(usize::MAX));
    stats.num_duplicates = 1;
    assert!(!stats.has_room(usize::MAX));
    assert!(stats.has_room(usize::MAX - 1));
}
