use crossbeam_channel::{RecvTimeoutError, SendError};
use sigverify::bytes::{same_bytes, Pubkey};
use sigverify::deduper::{
    drop_duplicates, is_dropped_duplicate, mark_duplicates, new_shred_deduper, report_duplicates,
};
use sigverify::leaders::{collect_slot_pubkeys, get_slot_leaders};
use sigverify::packets::count_discards;
use sigverify::pipeline::{
    conclude_round, end_round, end_verification, keeps_running, prepare_round, start_round,
    take_batch, RoundFacts, ShredSigverifyError, VerifyTotals, SIGVERIFY_SHRED_BATCH_SIZE,
};
use sigverify::retransmitter::{
    ResignError, ResignFacts, RetransmitterFacts, ShredError, TurbineParent,
};
use sigverify::shreds::{
    extract_shred_and_location, find_locations, pass_shreds, place_shred, place_shreds,
    BlockLocation, ShredLayout,
};
use sigverify::stats::{ShredSigVerifyStats, SigverifyWorkerStats};
use sigverify::workers::{
    collect_results, discard_unsigned, verify_batch, BatchResult, PacketFacts, PacketOutcome,
};
use solana_keypair::Keypair;
use solana_perf::packet::bytes::Bytes;
use solana_perf::packet::{
    BytesPacket, Meta, Packet, PacketBatch, PacketFlags, RecycledPacketBatch,
};
use solana_signature::Signature;
use solana_signer::Signer;
use std::collections::HashMap;
use std::time::Instant;

// A packet with a buffer of its own.
fn packet(data: &[u8], repair: bool) -> Packet {
    let mut packet = Packet::default();
    packet.buffer_mut()[..data.len()].copy_from_slice(data);
    packet.meta_mut().size = data.len();
    if repair {
        packet.meta_mut().flags |= PacketFlags::REPAIR;
    }
    packet
}

// A packet whose buffer can be shared.
fn bytes_packet_of(data: &[u8]) -> BytesPacket {
    let mut meta = Meta::default();
    meta.size = data.len();
    BytesPacket::new(Bytes::copy_from_slice(data), meta)
}

fn batch(packets: Vec<Packet>) -> PacketBatch {
    PacketBatch::from(RecycledPacketBatch::new(packets))
}

fn discards(batch: &PacketBatch) -> Vec<bool> {
    batch.iter().map(|packet| packet.meta().discard()).collect()
}

fn new_stats() -> ShredSigVerifyStats {
    ShredSigVerifyStats::new(Instant::now())
}

// A shred of slot 1: the signature of the leader, the slot, and some data.
fn signed_shred(keypair: &Keypair) -> Vec<u8> {
    let mut signed = 1u64.to_le_bytes().to_vec();
    signed.extend_from_slice(&[7; 100]);
    let mut shred = keypair.sign_message(&signed).as_ref().to_vec();
    shred.extend_from_slice(&signed);
    shred
}

fn slot_of(shred: &[u8]) -> Option<u64> {
    Some(u64::from_le_bytes(shred.get(64..72)?.try_into().ok()?))
}

fn is_signed_by_leader(shred: &[u8], slot_pubkeys: &HashMap<u64, Pubkey>) -> bool {
    let signature = Signature::try_from(&shred[..64]).unwrap();
    let leader = slot_of(shred).and_then(|slot| slot_pubkeys.get(&slot));
    leader.is_some_and(|leader| signature.verify(leader, &shred[64..]))
}

// What decides over a packet whose shred carries no retransmitter signature.
fn facts(leader_signature_valid: bool) -> PacketFacts {
    PacketFacts {
        leader_signature_valid,
        resign: ResignFacts {
            retransmitter_signed: Some(Ok(false)),
            retransmitter: RetransmitterFacts {
                signature: Err(ShredError::InvalidShredVariant),
                merkle_root: None,
                slot: Some(1),
                leader: None,
                parent: TurbineParent::NotNeeded,
            },
            enforced: Some(true),
        },
    }
}

fn facts_of(shred: &[u8], slot_pubkeys: &HashMap<u64, Pubkey>) -> PacketFacts {
    facts(is_signed_by_leader(shred, slot_pubkeys))
}

// What decides over a packet whose shred carries a wrong retransmitter signature.
fn wrong_retransmitter(enforced: bool) -> PacketFacts {
    let mut facts = facts(true);
    facts.resign = ResignFacts {
        retransmitter_signed: Some(Ok(true)),
        retransmitter: RetransmitterFacts {
            signature: Ok([0; 64]),
            merkle_root: Some([2; 32]),
            slot: Some(1),
            leader: Some([3; 32]),
            parent: TurbineParent::Node(Keypair::new().pubkey().to_bytes()),
        },
        enforced: Some(enforced),
    };
    facts
}

// One round of leader lookup and signature verification over batches of shreds.
fn verify_round(
    batches: &mut Vec<PacketBatch>,
    node: &Keypair,
    leader: &Keypair,
) -> SigverifyWorkerStats {
    let slots: Vec<Vec<Option<u64>>> = batches
        .iter()
        .map(|batch| batch.iter().map(|packet| slot_of(packet.data(..).unwrap())).collect())
        .collect();
    let schedule = HashMap::from([(1, leader.pubkey().to_bytes())]);
    let leaders = get_slot_leaders(&node.pubkey().to_bytes(), batches, &slots, &schedule);
    let slot_pubkeys = collect_slot_pubkeys(&leaders);
    let mut results = Vec::new();
    for mut batch in batches.drain(..) {
        let facts: Vec<PacketFacts> = batch
            .iter()
            .map(|packet| facts_of(packet.data(..).unwrap(), &slot_pubkeys))
            .collect();
        let (stats, _outcomes) = verify_batch(&mut batch, &facts);
        results.push(BatchResult { batch, stats });
    }
    collect_results(results, batches)
}

#[test]
fn test_sigverify_shreds_verify_batches() {
    let leader_keypair = Keypair::new();
    let wrong_keypair = Keypair::new();
    let node_keypair = Keypair::new();
    let valid_shred = signed_shred(&leader_keypair);
    let invalid_shred = signed_shred(&wrong_keypair);
    let mut batches =
        vec![batch(vec![packet(&valid_shred, false), packet(&invalid_shred, false)])];

    let stats = verify_round(&mut batches, &node_keypair, &leader_keypair);

    assert_eq!(stats.num_discards_post, 1);
    assert!(!batches[0].get(0).unwrap().meta().discard());
    assert!(batches[0].get(1).unwrap().meta().discard());
}

#[test]
fn test_sigverify_workers_are_reused_across_rounds() {
    let leader_keypair = Keypair::new();
    let wrong_keypair = Keypair::new();
    let node_keypair = Keypair::new();
    let valid_shred = signed_shred(&leader_keypair);
    let invalid_shred = signed_shred(&wrong_keypair);

    for _ in 0..3 {
        let mut packets = vec![Packet::default(); 5];
        for index in [0, 2, 4] {
            packets[index] = packet(&valid_shred, false);
        }
        for index in [1, 3] {
            packets[index] = packet(&invalid_shred, false);
        }
        let mut batches = vec![batch(packets)];

        let stats = verify_round(&mut batches, &node_keypair, &leader_keypair);

        assert_eq!(stats.num_discards_post, 2);
        assert!(!batches[0].get(0).unwrap().meta().discard());
        assert!(batches[0].get(1).unwrap().meta().discard());
        assert!(!batches[0].get(2).unwrap().meta().discard());
        assert!(batches[0].get(3).unwrap().meta().discard());
        assert!(!batches[0].get(4).unwrap().meta().discard());
    }
}

#[test]
fn test_extract_shred_and_location_bytes_packet_is_zero_copy() {
    let leader_keypair = Keypair::new();
    let shred = signed_shred(&leader_keypair);
    let bytes_packet = bytes_packet_of(&shred);
    let buffer_ptr = bytes_packet.buffer().as_ptr();
    let batch = PacketBatch::Single(bytes_packet);
    let layout = Some(ShredLayout { size: shred.len(), nonce: None });

    let mut stats = new_stats();
    let repair_nonce_location_lookup = |_| None;

    let (payload, location) =
        extract_shred_and_location(&batch, 0, layout, &repair_nonce_location_lookup, &mut stats)
            .unwrap();

    assert!(location.is_none());
    assert_eq!(payload.as_ptr(), buffer_ptr);
    assert_eq!(payload.as_ref(), shred.as_slice());
}

#[test]
fn keys_are_compared_byte_by_byte() {
    let key = [5; 32];
    for index in 0..32 {
        let mut other = key;
        other[index] = 6;
        assert!(!same_bytes(&key, &other));
    }
    assert!(same_bytes(&key, &key));
}

#[test]
fn discards_are_counted_over_all_batches() {
    let mut first = batch(vec![packet(&[1], false), packet(&[2], false)]);
    let mut second = batch(vec![packet(&[3], false)]);
    assert_eq!(count_discards(&[]), 0);
    first.get_mut(1).unwrap().meta_mut().set_discard(true);
    second.get_mut(0).unwrap().meta_mut().set_discard(true);
    let empty = batch(vec![]);
    let batches = [first, empty, second];
    assert_eq!(count_discards(&batches), 2);
    assert_eq!(count_discards(&batches[..1]) + count_discards(&batches[1..]), 2);
    let [first, empty, second] = batches;
    assert_eq!(count_discards(&[second, first, empty]), 2);
}

#[test]
fn a_shred_passes_the_filter_once() {
    let mut deduper = new_shred_deduper();
    let mut batches = vec![
        batch(vec![packet(&[1, 2, 3], false), packet(&[1, 2, 4], false)]),
        // The same shred, with another trailing byte.
        batch(vec![packet(&[1, 2, 3, 9], false)]),
    ];
    let sizes = vec![vec![Some(3), Some(3)], vec![Some(3)]];
    assert_eq!(drop_duplicates(&mut batches, &sizes, &mut deduper), 1);
    assert_eq!(discards(&batches[0]), vec![false, false]);
    assert_eq!(discards(&batches[1]), vec![true]);

    // In a later round both shreds are known.
    let mut batches = vec![batch(vec![packet(&[1, 2, 4], false), packet(&[5, 6, 7], false)])];
    let sizes = vec![vec![Some(3), Some(3)]];
    assert_eq!(drop_duplicates(&mut batches, &sizes, &mut deduper), 1);
    assert_eq!(discards(&batches[0]), vec![true, false]);
}

#[test]
fn new_shreds_of_one_batch_are_all_kept() {
    let mut deduper = new_shred_deduper();
    let mut batches = vec![batch((0..50).map(|n| packet(&[n, n], false)).collect())];
    let sizes = vec![vec![Some(2); 50]];
    assert_eq!(drop_duplicates(&mut batches, &sizes, &mut deduper), 0);
    assert_eq!(discards(&batches[0]), vec![false; 50]);
}

#[test]
fn repaired_shreds_are_kept_but_remembered() {
    let mut deduper = new_shred_deduper();
    let mut batches = vec![batch(vec![
        packet(&[1, 2, 3, 0, 0], true),
        packet(&[1, 2, 3, 0, 1], true),
        packet(&[1, 2, 3], false),
    ])];
    let sizes = vec![vec![Some(3), Some(3), Some(3)]];
    assert_eq!(drop_duplicates(&mut batches, &sizes, &mut deduper), 1);
    assert_eq!(discards(&batches[0]), vec![false, false, true]);
}

#[test]
fn packets_without_a_shred_count_as_duplicates() {
    let mut deduper = new_shred_deduper();
    let mut batches = vec![batch(vec![
        packet(&[1], false),
        packet(&[1, 2], false),
        packet(&[3], true),
    ])];
    batches[0].get_mut(1).unwrap().meta_mut().set_discard(true);
    let sizes = vec![vec![None, Some(2), Some(9)]];
    assert_eq!(drop_duplicates(&mut batches, &sizes, &mut deduper), 1);
    assert_eq!(discards(&batches[0]), vec![true, true, false]);
}

#[test]
fn reports_decide_over_duplicates() {
    let mut deduper = new_shred_deduper();
    let mut batches = vec![batch(vec![packet(&[1], false), packet(&[1], false)])];
    let sizes = vec![vec![Some(1), Some(1)]];
    let reports = report_duplicates(&batches, &sizes, &mut deduper);
    assert_eq!(reports, vec![vec![Some(false), Some(true)]]);
    assert_eq!(discards(&batches[0]), vec![false, false]);
    let wrong = vec![vec![Some(true), Some(false)]];
    assert_eq!(mark_duplicates(&mut batches, &wrong), 1);
    assert_eq!(discards(&batches[0]), vec![true, false]);
}

#[test]
fn duplicates_are_dropped_unless_repaired_or_discarded() {
    assert!(is_dropped_duplicate(false, false, Some(true)));
    assert!(is_dropped_duplicate(false, false, None));
    assert!(!is_dropped_duplicate(false, false, Some(false)));
    assert!(!is_dropped_duplicate(true, false, Some(true)));
    assert!(!is_dropped_duplicate(false, true, Some(true)));
}

#[test]
fn packets_without_a_leader_are_discarded() {
    let this_node = [1; 32];
    let other_node = [2; 32];
    let mut batches = vec![
        batch((0..4).map(|n| packet(&[n], false)).collect()),
        batch((4..6).map(|n| packet(&[n], false)).collect()),
    ];
    batches[1].get_mut(1).unwrap().meta_mut().set_discard(true);
    let slots = vec![vec![Some(10), Some(11), Some(12), None], vec![Some(10), Some(10)]];
    let schedule = HashMap::from([(10, other_node), (11, this_node)]);
    let leaders = get_slot_leaders(&this_node, &mut batches, &slots, &schedule);
    assert_eq!(
        leaders,
        vec![(10, Some(other_node)), (11, None), (12, None), (10, Some(other_node))]
    );
    assert_eq!(discards(&batches[0]), vec![false, true, true, false]);
    assert_eq!(discards(&batches[1]), vec![false, true]);
    let slot_pubkeys = collect_slot_pubkeys(&leaders);
    assert_eq!(slot_pubkeys, HashMap::from([(10, other_node), (u64::MAX, [0; 32])]));
}

#[test]
fn the_last_slot_has_the_default_key() {
    let slot_pubkeys = collect_slot_pubkeys(&vec![(u64::MAX, Some([9; 32])), (3, Some([4; 32]))]);
    assert_eq!(slot_pubkeys, HashMap::from([(u64::MAX, [0; 32]), (3, [4; 32])]));
}

#[test]
fn outcomes_and_counters_of_a_batch() {
    let mut batch = batch((0..6).map(|n| packet(&[n], n == 5)).collect());
    batch.get_mut(0).unwrap().meta_mut().set_discard(true);
    let mut unreadable = facts(true);
    unreadable.resign.retransmitter_signed = None;
    let all = vec![
        facts(true),
        facts(false),
        facts(true),
        wrong_retransmitter(true),
        unreadable,
        wrong_retransmitter(true),
    ];
    let (stats, outcomes) = verify_batch(&mut batch, &all);
    assert_eq!(
        outcomes,
        vec![
            PacketOutcome::Ignored,
            PacketOutcome::WrongLeaderSignature,
            PacketOutcome::Passed,
            PacketOutcome::Rejected(ResignError::VerifyRetransmitterSignature),
            PacketOutcome::Rejected(ResignError::Shred(ShredError::InvalidPacketSize)),
            PacketOutcome::Resigned,
        ]
    );
    assert_eq!(discards(&batch), vec![true, true, false, true, true, false]);
    assert_eq!(stats.num_verify_calls, 5);
    assert_eq!(stats.num_verify_failed, 1);
    // Packets that are rejected for their retransmitter signature do not count.
    assert_eq!(stats.num_discards_post, 2);
    assert_eq!(stats.num_invalid_retransmitter, 1);
    assert_eq!(stats.num_retranmitter_signature_verified, 0);
}

#[test]
fn a_wrong_retransmitter_is_kept_where_it_does_not_count() {
    let mut batch = batch(vec![packet(&[1], false)]);
    let (stats, outcomes) = verify_batch(&mut batch, &[wrong_retransmitter(false)]);
    assert_eq!(outcomes, vec![PacketOutcome::Resigned]);
    assert_eq!(discards(&batch), vec![false]);
    assert_eq!(stats.num_invalid_retransmitter, 1);
}

#[test]
fn packets_that_cannot_be_signed_are_discarded() {
    let mut batch = batch((0..3).map(|n| packet(&[n], false)).collect());
    discard_unsigned(&mut batch, &[false, true, false]);
    assert_eq!(discards(&batch), vec![false, true, false]);
}

#[test]
fn results_are_added_up_in_any_order() {
    let result = |n: u8, fail: bool| {
        let mut batch = batch((0..n).map(|n| packet(&[n], false)).collect());
        let all: Vec<PacketFacts> = (0..n).map(|_| facts(!fail)).collect();
        let (stats, _) = verify_batch(&mut batch, &all);
        BatchResult { batch, stats }
    };
    let mut first = Vec::new();
    let stats = collect_results(vec![result(2, true), result(3, false)], &mut first);
    assert_eq!(first.iter().map(|batch| batch.len()).collect::<Vec<_>>(), vec![2, 3]);
    let mut second = Vec::new();
    let swapped = collect_results(vec![result(3, false), result(2, true)], &mut second);
    assert_eq!(second.iter().map(|batch| batch.len()).collect::<Vec<_>>(), vec![3, 2]);
    for stats in [stats, swapped] {
        assert_eq!(stats.num_verify_calls, 5);
        assert_eq!(stats.num_verify_failed, 2);
        assert_eq!(stats.num_discards_post, 2);
    }
    let mut none = Vec::new();
    assert_eq!(collect_results(vec![], &mut none).num_verify_calls, 0);
    assert!(none.is_empty());
}

#[test]
fn the_grouping_of_packets_does_not_count() {
    let kinds = [facts(true), facts(false), wrong_retransmitter(true), wrong_retransmitter(false)];
    let run = |sizes: &[usize]| {
        let mut next = 0;
        let mut results = Vec::new();
        for size in sizes {
            let numbers: Vec<usize> = (next..next + size).collect();
            next += size;
            let mut batch =
                batch(numbers.iter().map(|number| packet(&[*number as u8], false)).collect());
            let all: Vec<PacketFacts> = numbers.iter().map(|number| kinds[number % 4]).collect();
            let (stats, _) = verify_batch(&mut batch, &all);
            results.push(BatchResult { batch, stats });
        }
        let mut batches = Vec::new();
        let stats = collect_results(results, &mut batches);
        let flags: Vec<bool> = batches.iter().flat_map(discards).collect();
        (
            flags,
            stats.num_verify_calls,
            stats.num_verify_failed,
            stats.num_discards_post,
            stats.num_invalid_retransmitter,
        )
    };
    let expected = run(&[8]);
    assert_eq!(expected.0, [false, true, true, false, false, true, true, false]);
    assert_eq!((expected.1, expected.2, expected.3, expected.4), (8, 2, 2, 4));
    assert_eq!(run(&[1, 0, 3, 4]), expected);
    assert_eq!(run(&[1; 8]), expected);
}

#[test]
fn packets_with_their_own_buffer_are_copied() {
    let batch = batch(vec![packet(&[1, 2, 3, 4], false)]);
    let layout = Some(ShredLayout { size: 3, nonce: None });
    let mut stats = new_stats();
    let (payload, location) = place_shred(&batch, 0, layout, None, &mut stats).unwrap();
    assert_eq!(payload.as_ref(), &[1, 2, 3]);
    assert_ne!(payload.as_ptr(), batch.get(0).unwrap().data(..).unwrap().as_ptr());
    assert!(location.is_none());
    assert_eq!(stats.num_unknown_block_location, 0);
}

#[test]
fn repaired_shreds_need_a_location() {
    let batch = batch(vec![packet(&[1, 2, 3, 0, 0, 0, 0], true)]);
    let layout = Some(ShredLayout { size: 3, nonce: Some(77) });
    let alternate = BlockLocation::Alternate { block_id: [6; 32] };
    let lookup = |nonce| if nonce == 77 { Some(alternate) } else { None };
    let mut stats = new_stats();
    let (payload, location) =
        extract_shred_and_location(&batch, 0, layout, &lookup, &mut stats).unwrap();
    assert_eq!(payload.as_ref(), &[1, 2, 3]);
    assert_eq!(location, Some(alternate));
    assert_eq!(stats.num_unknown_block_location, 0);
    let unknown = Some(ShredLayout { size: 3, nonce: Some(78) });
    assert!(extract_shred_and_location(&batch, 0, unknown, &lookup, &mut stats).is_none());
    assert_eq!(stats.num_unknown_block_location, 1);
    assert!(extract_shred_and_location(&batch, 0, None, &lookup, &mut stats).is_none());
    assert_eq!(stats.num_unknown_block_location, 1);
}

// One shred that came through the turbine tree, one that is dropped, one that came by repair, and
// one that came by repair and has no location.
fn mixed_batches() -> (Vec<PacketBatch>, Vec<Vec<Option<ShredLayout>>>) {
    let shared = bytes_packet_of(&[4, 4, 4]);
    let mut batches = vec![
        batch(vec![
            packet(&[1, 1], false),
            packet(&[2, 2], false),
            packet(&[3, 3, 0, 0, 0, 10], true),
            packet(&[5, 5, 0, 0, 0, 11], true),
        ]),
        PacketBatch::Single(shared),
    ];
    batches[0].get_mut(1).unwrap().meta_mut().set_discard(true);
    let layouts = vec![
        vec![
            Some(ShredLayout { size: 2, nonce: None }),
            None,
            Some(ShredLayout { size: 2, nonce: Some(10) }),
            Some(ShredLayout { size: 2, nonce: Some(11) }),
        ],
        vec![Some(ShredLayout { size: 2, nonce: None })],
    ];
    (batches, layouts)
}

#[test]
fn kept_shreds_are_passed_on() {
    let (batches, layouts) = mixed_batches();
    let alternate = BlockLocation::Alternate { block_id: [6; 32] };
    let lookup = |nonce| if nonce == 10 { Some(alternate) } else { None };
    let mut stats = new_stats();
    let passed = pass_shreds(&batches, &layouts, &lookup, &mut stats);
    let retransmit: Vec<&[u8]> = passed.retransmit.iter().map(|shred| shred.as_ref()).collect();
    assert_eq!(retransmit, vec![&[1u8, 1][..], &[4, 4]]);
    let verified: Vec<(&[u8], bool, BlockLocation)> =
        passed.verified.iter().map(|entry| (entry.0.as_ref(), entry.1, entry.2)).collect();
    assert_eq!(
        verified,
        vec![
            (&[1u8, 1][..], false, BlockLocation::Original),
            (&[3, 3], true, alternate),
            (&[4, 4], false, BlockLocation::Original),
        ]
    );
    assert_eq!(stats.num_unknown_block_location, 1);
    assert_eq!(stats.num_retransmit_shreds, 2);
}

#[test]
fn locations_are_looked_up_for_repaired_shreds_only() {
    let (batches, layouts) = mixed_batches();
    let found = find_locations(&batches, &layouts, &|nonce| {
        assert!(nonce == 10 || nonce == 11);
        Some(BlockLocation::Original)
    });
    let original = Some(BlockLocation::Original);
    assert_eq!(found, vec![vec![None, None, original, original], vec![None]]);
    let mut stats = new_stats();
    let passed = place_shreds(&batches, &layouts, &found, &mut stats);
    assert_eq!(passed.verified.len(), 4);
    assert_eq!(passed.retransmit.len(), 2);
    assert_eq!(stats.num_unknown_block_location, 0);
}

#[test]
fn a_round_takes_a_bounded_number_of_batches() {
    let mut buffer = Vec::new();
    let mut stats = new_stats();
    for taken in 1..=SIGVERIFY_SHRED_BATCH_SIZE {
        let more = take_batch(&mut buffer, batch(vec![packet(&[1], false)]), &mut stats);
        assert_eq!(more, taken < SIGVERIFY_SHRED_BATCH_SIZE);
    }
    assert_eq!(buffer.len(), 1024);
    assert_eq!(stats.num_packets, 1024);
}

#[test]
fn a_round_is_counted() {
    let mut deduper = new_shred_deduper();
    let mut stats = new_stats();
    let mut buffer = Vec::new();
    let mut first = batch(vec![packet(&[1], false), packet(&[2], false)]);
    first.get_mut(1).unwrap().meta_mut().set_discard(true);
    take_batch(&mut buffer, first, &mut stats);
    take_batch(&mut buffer, batch(vec![packet(&[1], false)]), &mut stats);
    let sizes = vec![vec![Some(1), Some(1)], vec![Some(1)]];
    start_round(&mut buffer, &sizes, &mut deduper, &mut stats);
    assert_eq!(stats.num_iters, 1);
    assert_eq!(stats.num_batches, 2);
    assert_eq!(stats.num_packets, 3);
    assert_eq!(stats.num_discards_pre, 1);
    assert_eq!(stats.num_duplicates, 1);

    let mut totals = VerifyTotals::new();
    let worker = SigverifyWorkerStats {
        num_verify_calls: 5,
        num_verify_failed: 2,
        num_discards_post: 4,
        ..SigverifyWorkerStats::default()
    };
    end_verification(worker, 30, &mut totals, &mut stats);
    assert_eq!(totals, VerifyTotals { verify_calls: 5, verify_failed: 2 });
    assert_eq!(stats.num_discards_post, 4);
    assert_eq!(stats.verify_and_resign_micros, 30);

    end_round(&mut buffer, 50, &mut stats);
    assert!(buffer.is_empty());
    assert_eq!(stats.elapsed_micros, 50);
}

#[test]
fn only_a_lost_channel_ends_the_rounds() {
    assert!(keeps_running(&Ok(())));
    let timeout = ShredSigverifyError::from(RecvTimeoutError::Timeout);
    assert_eq!(timeout, ShredSigverifyError::RecvTimeout);
    assert!(keeps_running(&Err(timeout)));
    let disconnected = ShredSigverifyError::from(RecvTimeoutError::Disconnected);
    assert_eq!(disconnected, ShredSigverifyError::RecvDisconnected);
    assert!(!keeps_running(&Err(disconnected)));
    let unsent = ShredSigverifyError::from(SendError(3));
    assert_eq!(unsent, ShredSigverifyError::SendError);
    assert!(!keeps_running(&Err(unsent)));
}

#[test]
fn a_round_from_end_to_end() {
    let leader = Keypair::new();
    let node = Keypair::new();
    let valid = signed_shred(&leader);
    let invalid = signed_shred(&Keypair::new());
    let mut stats = new_stats();
    let mut totals = VerifyTotals::new();
    let mut deduper = new_shred_deduper();
    let mut buffer = Vec::new();
    let packets = vec![
        packet(&valid, false),
        packet(&valid, false),
        packet(&invalid, false),
        packet(&[1; 70], false),
    ];
    take_batch(&mut buffer, batch(packets), &mut stats);

    let round = RoundFacts {
        sizes: vec![vec![Some(valid.len()), Some(valid.len()), Some(invalid.len()), None]],
        slots: vec![vec![Some(1), Some(1), Some(1), None]],
        schedule: HashMap::from([(1, leader.pubkey().to_bytes())]),
        self_pubkey: node.pubkey().to_bytes(),
    };
    let slot_pubkeys = prepare_round(&mut buffer, &round, &mut deduper, &mut stats);
    assert_eq!(discards(&buffer[0]), vec![false, true, false, true]);
    assert_eq!(stats.num_duplicates, 2);
    assert_eq!(slot_pubkeys.get(&1), Some(&leader.pubkey().to_bytes()));

    let mut results = Vec::new();
    for mut batch in buffer.drain(..) {
        let facts: Vec<PacketFacts> = batch
            .iter()
            .map(|packet| match packet.data(..) {
                Some(data) => facts_of(data, &slot_pubkeys),
                None => facts(false),
            })
            .collect();
        let (stats, _outcomes) = verify_batch(&mut batch, &facts);
        results.push(BatchResult { batch, stats });
    }
    let layouts = vec![vec![Some(ShredLayout { size: valid.len(), nonce: None }), None, None, None]];
    let passed = conclude_round(
        results,
        25,
        &layouts,
        &|_| None,
        &mut buffer,
        &mut totals,
        &mut stats,
    );
    assert_eq!(passed.retransmit.len(), 1);
    assert_eq!(passed.retransmit[0].as_ref(), valid.as_slice());
    assert_eq!(passed.verified.len(), 1);
    assert_eq!(totals, VerifyTotals { verify_calls: 2, verify_failed: 1 });
    assert_eq!(stats.num_discards_post, 3);
    let good = totals.verify_calls - totals.verify_failed;
    assert_eq!(stats.num_packets, stats.num_discards_post + good);
    assert!(stats.num_discards_post >= stats.num_discards_pre + stats.num_duplicates);
    assert_eq!(stats.num_retransmit_shreds, 1);
    assert_eq!(stats.verify_and_resign_micros, 25);
    assert_eq!(discards(&buffer[0]), vec![false, true, true, true]);
}
