//! The rounds of the shred signature verification stage.

use crate::bytes::Pubkey;
use crate::deduper::{
    all_reports, batches_deduped, bit_shown_before, drop_duplicates,
    dropping_duplicates_only_marks, filter_bits, filter_view, inner_views, kept_shreds_are_new,
    lemma_deduped_lengths, marks_follow_the_reports, reports_follow_the_filter, same_shape,
    shred_in, FilterView,
};
use crate::leaders::{
    batch_has_slot, batches_have_slot, collect_slot_pubkeys,
    collected_leaders_are_those_of_kept_packets, get_slot_leaders, is_default_pubkey,
    known_leaders, lacks_leader, leaderless_batches_marked, leaders_of_batches,
    packets_without_a_leader_are_marked,
};
use crate::packets::{
    batch_len, batch_packets, batch_views, count_discards, lemma_flattened, lemma_same_total,
    lemma_total_discards_bound, lemma_total_discards_grow, total_discards, total_packets,
    PacketView,
};
use crate::shreds::{
    all_answered, all_layouts_fit, all_lost, all_passed, can_look_up, can_pass, pass_shreds,
    passed_counted, passed_views, retransmitted, shred_views, BlockLocation, PassedShreds,
    ShredLayout,
};
use crate::stats::{ShredSigVerifyStats, SigverifyWorkerStats};
use crate::workers::{
    batch_verified, collect_results, kept_packets_are_verified, lemma_results_flattened,
    lemma_results_wf, order_of_results_does_not_count, result_batches, result_stats,
    results_counted, worker_counts_add_up, BatchResult, PacketFacts,
};
use crossbeam_channel::{RecvTimeoutError, SendError};
use solana_perf::deduper::Deduper;
use solana_perf::packet::PacketBatch;
use std::collections::HashMap;
use vstd::prelude::*;

verus! {

/// Maximum number of packet batches to process in a single round.
pub const SIGVERIFY_SHRED_BATCH_SIZE: usize = 1024;

/// Why nothing was received in time.
#[verifier::external_type_specification]
pub struct ExRecvTimeoutError(RecvTimeoutError);

/// Why a message was not sent.
#[verifier::external_type_specification]
#[verifier::reject_recursive_types(T)]
pub struct ExSendError<T>(SendError<T>);

/// Why a round ended early.
#[derive(Debug, Clone, Copy, PartialEq, Eq)]
pub enum ShredSigverifyError {
    /// No more packets can come.
    RecvDisconnected,
    /// No packets came in time.
    RecvTimeout,
    /// Nobody takes the verified shreds any more.
    SendError,
}

impl From<RecvTimeoutError> for ShredSigverifyError {
    fn from(err: RecvTimeoutError) -> (result: Self) {
        match err {
            RecvTimeoutError::Timeout => ShredSigverifyError::RecvTimeout,
            RecvTimeoutError::Disconnected => ShredSigverifyError::RecvDisconnected,
        }
    }
}

impl vstd::std_specs::convert::FromSpecImpl<RecvTimeoutError> for ShredSigverifyError {
    open spec fn obeys_from_spec() -> bool {
        true
    }

    open spec fn from_spec(err: RecvTimeoutError) -> ShredSigverifyError {
        match err {
            RecvTimeoutError::Timeout => ShredSigverifyError::RecvTimeout,
            RecvTimeoutError::Disconnected => ShredSigverifyError::RecvDisconnected,
        }
    }
}

impl<T> From<SendError<T>> for ShredSigverifyError {
    fn from(_err: SendError<T>) -> (result: Self) {
        ShredSigverifyError::SendError
    }
}

impl<T> vstd::std_specs::convert::FromSpecImpl<SendError<T>> for ShredSigverifyError {
    open spec fn obeys_from_spec() -> bool {
        true
    }

    open spec fn from_spec(_err: SendError<T>) -> ShredSigverifyError {
        ShredSigverifyError::SendError
    }
}

/// Whether another round follows: not if one of the channels is gone.
pub fn keeps_running(round: &Result<(), ShredSigverifyError>) -> (running: bool)
    ensures
        running == (*round is Ok || *round == Err::<(), _>(ShredSigverifyError::RecvTimeout)),
{
    match round {
        Ok(()) => true,
        Err(ShredSigverifyError::RecvTimeout) => true,
        Err(ShredSigverifyError::RecvDisconnected) => false,
        Err(ShredSigverifyError::SendError) => false,
    }
}

/// Takes a received batch into the round. Returns whether the round takes another one.
pub fn take_batch(
    buffer: &mut Vec<PacketBatch>,
    batch: PacketBatch,
    stats: &mut ShredSigVerifyStats,
) -> (more: bool)
    requires
        old(stats).num_packets + batch_packets(batch).len() <= usize::MAX,
    ensures
        final(buffer)@ == old(buffer)@.push(batch),
        *final(stats) == (ShredSigVerifyStats {
            num_packets: (old(stats).num_packets + batch_packets(batch).len()) as usize,
            ..*old(stats)
        }),
        more == (final(buffer)@.len() < SIGVERIFY_SHRED_BATCH_SIZE),
        more == (final(buffer)@.len() < 1024),
{
    stats.num_packets += batch_len(&batch);
    buffer.push(batch);
    buffer.len() < SIGVERIFY_SHRED_BATCH_SIZE
}

/// A round over batches with `packets` packets in all can be counted without overflow.
pub open spec fn can_start(stats: ShredSigVerifyStats, batches: nat, packets: nat) -> bool {
    &&& stats.num_iters < usize::MAX
    &&& stats.num_batches + batches <= usize::MAX
    &&& stats.num_discards_pre + packets <= usize::MAX
    &&& stats.num_duplicates + packets <= usize::MAX
}

/// The counters after the duplicates of a round were dropped.
pub open spec fn round_counted(
    stats: ShredSigVerifyStats,
    before: Seq<Seq<PacketView>>,
    after: Seq<Seq<PacketView>>,
) -> ShredSigVerifyStats {
    ShredSigVerifyStats {
        num_iters: (stats.num_iters + 1) as usize,
        num_batches: (stats.num_batches + before.len()) as usize,
        num_discards_pre: (stats.num_discards_pre + total_discards(before)) as usize,
        num_duplicates: (stats.num_duplicates + total_discards(after) - total_discards(
            before,
        )) as usize,
        ..stats
    }
}

/// Counts the batches of a round and drops the packets whose shreds were received before.
pub fn start_round(
    buffer: &mut Vec<PacketBatch>,
    sizes: &[Vec<Option<usize>>],
    deduper: &mut Deduper<2, [u8]>,
    stats: &mut ShredSigVerifyStats,
)
    requires
        same_shape(batch_views(old(buffer)@), inner_views(sizes@)),
        total_packets(batch_views(old(buffer)@)) <= usize::MAX,
        filter_bits(*old(deduper)) > 0,
        can_start(*old(stats), old(buffer)@.len(), total_packets(batch_views(old(buffer)@))),
    ensures
        batch_views(final(buffer)@) == batches_deduped(
            filter_view(*old(deduper)),
            batch_views(old(buffer)@),
            inner_views(sizes@),
        ),
        filter_view(*final(deduper)) == filter_view(*old(deduper)).shown_batches(
            batch_views(old(buffer)@),
            inner_views(sizes@),
            old(buffer)@.len() as int,
        ),
        filter_bits(*final(deduper)) == filter_bits(*old(deduper)),
        *final(stats) == round_counted(
            *old(stats),
            batch_views(old(buffer)@),
            batch_views(final(buffer)@),
        ),
{
    let ghost before = batch_views(buffer@);
    proof {
        lemma_total_discards_bound(before);
    }
    stats.num_iters += 1;
    stats.num_batches += buffer.len();
    stats.num_discards_pre += count_discards(buffer.as_slice());
    let duplicates: usize = drop_duplicates(buffer, sizes, deduper);
    proof {
        let after = batch_views(buffer@);
        lemma_total_discards_bound(after);
        lemma_deduped_lengths(filter_view(*old(deduper)), before, inner_views(sizes@));
    }
    stats.num_duplicates += duplicates;
}

/// The batches of a round as the workers get them: duplicates are dropped, then packets whose slots
/// have no leader other than this node.
pub open spec fn round_prepared(
    filter: FilterView,
    received: Seq<Seq<PacketView>>,
    facts: RoundFactsView,
) -> Seq<Seq<PacketView>> {
    leaderless_batches_marked(
        facts.schedule,
        facts.self_pubkey,
        batches_deduped(filter, received, facts.sizes),
        facts.slots,
    )
}

/// What is known of the packets of a round before the workers get them.
pub struct RoundFacts {
    /// The size of the shred in each packet.
    pub sizes: Vec<Vec<Option<usize>>>,
    /// The slot of the shred in each packet.
    pub slots: Vec<Vec<Option<u64>>>,
    /// The leaders of those slots, as far as they are known.
    pub schedule: HashMap<u64, Pubkey>,
    /// The public key of this node.
    pub self_pubkey: Pubkey,
}

/// What is known of the packets of a round before the workers get them.
pub struct RoundFactsView {
    /// The size of the shred in each packet.
    pub sizes: Seq<Seq<Option<usize>>>,
    /// The slot of the shred in each packet.
    pub slots: Seq<Seq<Option<u64>>>,
    /// The leaders of those slots, as far as they are known.
    pub schedule: Map<u64, Pubkey>,
    /// The public key of this node.
    pub self_pubkey: Pubkey,
}

impl View for RoundFacts {
    type V = RoundFactsView;

    open spec fn view(&self) -> RoundFactsView {
        RoundFactsView {
            sizes: inner_views(self.sizes@),
            slots: inner_views(self.slots@),
            schedule: self.schedule@,
            self_pubkey: self.self_pubkey,
        }
    }
}

/// The leaders by slot, as the workers get them: those of the packets that are left after
/// duplicates were dropped, and the default public key for the last slot of all.
pub open spec fn leaders_collected(
    slot_pubkeys: Map<u64, Pubkey>,
    deduped: Seq<Seq<PacketView>>,
    facts: RoundFactsView,
) -> bool {
    let leaders = leaders_of_batches(
        facts.schedule,
        facts.self_pubkey,
        deduped,
        facts.slots,
        deduped.len(),
    );
    &&& slot_pubkeys.remove(u64::MAX) == known_leaders(leaders, leaders.len()).remove(u64::MAX)
    &&& slot_pubkeys.contains_key(u64::MAX)
    &&& is_default_pubkey(slot_pubkeys[u64::MAX])
}

/// Prepares a round for the workers: counts its batches, drops the packets whose shreds were
/// received before, drops those whose slots have no leader other than this node, and collects the
/// leaders of the others.
pub fn prepare_round(
    buffer: &mut Vec<PacketBatch>,
    facts: &RoundFacts,
    deduper: &mut Deduper<2, [u8]>,
    stats: &mut ShredSigVerifyStats,
) -> (slot_pubkeys: HashMap<u64, Pubkey>)
    requires
        same_shape(batch_views(old(buffer)@), facts@.sizes),
        same_shape(batch_views(old(buffer)@), facts@.slots),
        total_packets(batch_views(old(buffer)@)) <= usize::MAX,
        filter_bits(*old(deduper)) > 0,
        can_start(*old(stats), old(buffer)@.len(), total_packets(batch_views(old(buffer)@))),
    ensures
        ({
            let filter = filter_view(*old(deduper));
            let received = batch_views(old(buffer)@);
            let deduped = batches_deduped(filter, received, facts@.sizes);
            &&& batch_views(final(buffer)@) == round_prepared(filter, received, facts@)
            &&& leaders_collected(slot_pubkeys@, deduped, facts@)
            &&& *final(stats) == round_counted(*old(stats), received, deduped)
        }),
        filter_view(*final(deduper)) == filter_view(*old(deduper)).shown_batches(
            batch_views(old(buffer)@),
            facts@.sizes,
            old(buffer)@.len() as int,
        ),
        filter_bits(*final(deduper)) == filter_bits(*old(deduper)),
{
    let ghost received = batch_views(buffer@);
    let ghost filter = filter_view(*deduper);
    start_round(buffer, facts.sizes.as_slice(), deduper, stats);
    let ghost deduped = batch_views(buffer@);
    proof {
        lemma_deduped_lengths(filter, received, facts@.sizes);
        assert(same_shape(deduped, facts@.slots)) by {
            assert forall|b: int| 0 <= b < deduped.len() implies (#[trigger] facts@.slots[b]).len()
                == deduped[b].len() by {
                assert(received[b].len() == deduped[b].len());
            }
        }
    }
    let leaders = get_slot_leaders(
        &facts.self_pubkey,
        buffer,
        facts.slots.as_slice(),
        &facts.schedule,
    );
    collect_slot_pubkeys(&leaders)
}

/// How many leader signatures were checked, and how many of them were wrong, since the stage was
/// started.
#[derive(Debug, Clone, Copy, PartialEq, Eq)]
pub struct VerifyTotals {
    /// Signatures that were checked.
    pub verify_calls: usize,
    /// Signatures that were wrong.
    pub verify_failed: usize,
}

impl VerifyTotals {
    /// The totals, with what workers counted added.
    pub open spec fn plus(self, worker: SigverifyWorkerStats) -> VerifyTotals {
        VerifyTotals {
            verify_calls: (self.verify_calls + worker.num_verify_calls) as usize,
            verify_failed: (self.verify_failed + worker.num_verify_failed) as usize,
        }
    }

    /// Nothing was checked yet.
    pub fn new() -> (totals: Self)
        ensures
            totals == (VerifyTotals { verify_calls: 0, verify_failed: 0 }),
    {
        VerifyTotals { verify_calls: 0, verify_failed: 0 }
    }
}

/// What the workers counted in `elapsed_micros` can be added without overflow.
pub open spec fn can_end_verification(
    stats: ShredSigVerifyStats,
    totals: VerifyTotals,
    worker: SigverifyWorkerStats,
    elapsed_micros: u128,
) -> bool {
    &&& stats.can_commit(worker)
    &&& stats.verify_and_resign_micros + (elapsed_micros as u64) <= u64::MAX
    &&& totals.verify_calls + worker.num_verify_calls <= usize::MAX
    &&& totals.verify_failed + worker.num_verify_failed <= usize::MAX
}

/// Counts what the workers did, and how long it took.
pub fn end_verification(
    worker: SigverifyWorkerStats,
    elapsed_micros: u128,
    totals: &mut VerifyTotals,
    stats: &mut ShredSigVerifyStats,
)
    requires
        can_end_verification(*old(stats), *old(totals), worker, elapsed_micros),
    ensures
        *final(totals) == old(totals).plus(worker),
        *final(stats) == verification_counted(*old(stats), worker, elapsed_micros),
{
    totals.verify_calls += worker.num_verify_calls;
    totals.verify_failed += worker.num_verify_failed;
    stats.verify_and_resign_micros += elapsed_micros as u64;
    worker.commit(stats);
}

/// The counters of the stage after the workers returned their results.
pub open spec fn verification_counted(
    stats: ShredSigVerifyStats,
    worker: SigverifyWorkerStats,
    elapsed_micros: u128,
) -> ShredSigVerifyStats {
    ShredSigVerifyStats {
        verify_and_resign_micros: (stats.verify_and_resign_micros + (elapsed_micros as u64)) as u64,
        ..stats.committed(worker)
    }
}

/// Takes back the batches from the workers, counts what they did in `elapsed_micros`, and passes on
/// the shreds of all packets that are kept. `layouts` holds what lies where in each packet, in the
/// order in which the workers returned the batches.
pub fn conclude_round<F: Fn(u32) -> Option<BlockLocation>>(
    results: Vec<BatchResult>,
    elapsed_micros: u128,
    layouts: &[Vec<Option<ShredLayout>>],
    lookup: &F,
    buffer: &mut Vec<PacketBatch>,
    totals: &mut VerifyTotals,
    stats: &mut ShredSigVerifyStats,
) -> (passed: PassedShreds)
    requires
        old(buffer)@.len() == 0,
        forall|i: int| 0 <= i < results@.len() ==> (#[trigger] results@[i]).wf(),
        total_packets(batch_views(result_batches(results@))) <= usize::MAX,
        all_layouts_fit(batch_views(result_batches(results@)), inner_views(layouts@)),
        can_look_up(*lookup, batch_views(result_batches(results@)), inner_views(layouts@)),
        can_end_verification(*old(stats), *old(totals), result_stats(results@), elapsed_micros),
        can_pass(*old(stats), total_packets(batch_views(result_batches(results@)))),
    ensures
        final(buffer)@ == result_batches(results@),
        *final(totals) == old(totals).plus(result_stats(results@)),
        exists|answers: Seq<Seq<Option<BlockLocation>>>|
            #![trigger all_answered(
                *lookup,
                batch_views(final(buffer)@),
                inner_views(layouts@),
                answers,
            )]
            {
                let views = batch_views(final(buffer)@);
                let rows = inner_views(layouts@);
                let n = final(buffer)@.len() as int;
                &&& all_answered(*lookup, views, rows, answers)
                &&& passed_views(passed.verified@) == all_passed(views, rows, answers, n)
                &&& shred_views(passed.retransmit@) == retransmitted(
                    all_passed(views, rows, answers, n),
                )
                &&& *final(stats) == passed_counted(
                    verification_counted(
                        *old(stats),
                        result_stats(results@),
                        elapsed_micros,
                    ),
                    all_lost(views, rows, answers, n),
                    passed.retransmit@.len(),
                )
            },
{
    let worker = collect_results(results, buffer);
    end_verification(worker, elapsed_micros, totals, stats);
    pass_shreds(buffer.as_slice(), layouts, lookup, stats)
}

/// Ends a round whose shreds were all passed on: counts how long it took, and forgets its packets.
pub fn end_round(
    buffer: &mut Vec<PacketBatch>,
    elapsed_micros: u128,
    stats: &mut ShredSigVerifyStats,
)
    requires
        old(stats).elapsed_micros + (elapsed_micros as u64) <= u64::MAX,
    ensures
        final(buffer)@.len() == 0,
        *final(stats) == (ShredSigVerifyStats {
            elapsed_micros: (old(stats).elapsed_micros + (elapsed_micros as u64)) as u64,
            ..*old(stats)
        }),
{
    stats.elapsed_micros += elapsed_micros as u64;
    buffer.clear();
}

/// A packet that is kept to the end of a round passed every check on the way. It was received
/// unmarked. It answers a repair request, or it holds a shred that was not received before. If its
/// slot can be told, that slot has a leader other than this node. Its shred carries the signature
/// of the leader.
pub proof fn kept_packets_passed_every_check(
    filter: FilterView,
    received: Seq<Seq<PacketView>>,
    round: RoundFactsView,
    facts: Seq<PacketFacts>,
    b: int,
    i: int,
)
    requires
        0 <= b < received.len(),
        0 <= i < received[b].len(),
        !batch_verified(round_prepared(filter, received, round)[b], facts)[i].discard,
    ensures
        !received[b][i].discard,
        received[b][i].repair || (shred_in(received[b][i], round.sizes[b][i]) matches Some(shred)
            && !filter.knows(shred)),
        round.slots[b][i] matches Some(slot) ==> round.schedule.contains_key(slot)
            && round.schedule[slot] != round.self_pubkey,
        facts[i].leader_signature_valid,
{
    dropping_duplicates_only_marks(filter, received, round.sizes, b, i);
    kept_packets_are_verified(round_prepared(filter, received, round)[b], facts, i);
    assert(!lacks_leader(round.schedule, round.self_pubkey, round.slots[b][i]));
    if !received[b][i].repair {
        kept_shreds_are_new(filter, received, round.sizes, b, i);
    }
}

/// The counters after batches were taken into a round.
pub open spec fn batches_taken(
    stats: ShredSigVerifyStats,
    batches: Seq<Seq<PacketView>>,
) -> ShredSigVerifyStats {
    ShredSigVerifyStats {
        num_packets: (stats.num_packets + total_packets(batches)) as usize,
        ..stats
    }
}

/// Taking one batch more counts its packets.
pub proof fn taken_batches_are_counted(
    stats: ShredSigVerifyStats,
    batches: Seq<Seq<PacketView>>,
    batch: Seq<PacketView>,
)
    requires
        stats.num_packets + total_packets(batches) + batch.len() <= usize::MAX,
    ensures
        batches_taken(stats, Seq::empty()) == stats,
        batches_taken(stats, batches.push(batch)) == (ShredSigVerifyStats {
            num_packets: (batches_taken(stats, batches).num_packets + batch.len()) as usize,
            ..stats
        }),
{
    assert(batches.push(batch).drop_last() =~= batches);
}

/// The counters of a round add up. Each packet that is received is discarded in the end, or its
/// leader signature was checked and is right. No fewer packets are discarded in the end than were
/// received marked or dropped as duplicates. `results` are the results of the workers in any order,
/// `ordered` are the same in the order of the batches.
pub proof fn counters_of_a_round_add_up(
    filter: FilterView,
    received: Seq<Seq<PacketView>>,
    round: RoundFactsView,
    facts: Seq<Seq<PacketFacts>>,
    ordered: Seq<BatchResult>,
    results: Seq<BatchResult>,
    elapsed_micros: u128,
    lost: nat,
    retransmit: nat,
    stats: ShredSigVerifyStats,
    totals: VerifyTotals,
)
    requires
        same_shape(received, round.sizes),
        same_shape(received, round.slots),
        results_counted(ordered, round_prepared(filter, received, round), facts),
        results.to_multiset() == ordered.to_multiset(),
        stats.num_packets + total_packets(received) <= usize::MAX,
        can_start(stats, received.len(), total_packets(received)),
        can_end_verification(stats, totals, result_stats(results), elapsed_micros),
    ensures
        ({
            let deduped = batches_deduped(filter, received, round.sizes);
            let worker = result_stats(results);
            let started = round_counted(batches_taken(stats, received), received, deduped);
            let verified = verification_counted(started, worker, elapsed_micros);
            let after = passed_counted(verified, lost, retransmit);
            let totals_after = totals.plus(worker);
            let packets = after.num_packets - stats.num_packets;
            let discards_pre = after.num_discards_pre - stats.num_discards_pre;
            let duplicates = after.num_duplicates - stats.num_duplicates;
            let discards_post = after.num_discards_post - stats.num_discards_post;
            let calls = totals_after.verify_calls - totals.verify_calls;
            let failed = totals_after.verify_failed - totals.verify_failed;
            &&& packets == discards_post + calls - failed
            &&& 0 <= failed <= calls
            &&& discards_post >= discards_pre + duplicates
        }),
{
    let deduped = batches_deduped(filter, received, round.sizes);
    let prepared = round_prepared(filter, received, round);
    let flat = prepared.flatten_alt();
    let flat_facts = facts.flatten_alt();
    lemma_deduped_lengths(filter, received, round.sizes);
    lemma_same_total(received, prepared);
    lemma_total_discards_bound(received);
    lemma_total_discards_bound(deduped);
    lemma_total_discards_grow(received, deduped);
    lemma_total_discards_grow(deduped, prepared);
    lemma_results_flattened(ordered, prepared, facts);
    lemma_flattened(prepared);
    worker_counts_add_up(flat, flat_facts);
    lemma_results_wf(ordered, results, prepared, facts);
    lemma_same_total(prepared, batch_views(result_batches(ordered)));
    order_of_results_does_not_count(ordered, results);
}

/// Whether nothing came in time, no more can come, or nobody takes what is passed on, is told
/// apart.
pub proof fn errors_are_told_apart<T>(lost: SendError<T>)
    ensures
        <ShredSigverifyError as vstd::std_specs::convert::FromSpec<RecvTimeoutError>>::from_spec(
            RecvTimeoutError::Timeout,
        ) == ShredSigverifyError::RecvTimeout,
        <ShredSigverifyError as vstd::std_specs::convert::FromSpec<RecvTimeoutError>>::from_spec(
            RecvTimeoutError::Disconnected,
        ) == ShredSigverifyError::RecvDisconnected,
        <ShredSigverifyError as vstd::std_specs::convert::FromSpec<SendError<T>>>::from_spec(lost)
            == ShredSigverifyError::SendError,
{
}

/// Starting a round counts it, its batches, the packets that came marked and those that were marked
/// since. No other counter changes.
pub proof fn starts_of_rounds_are_counted(
    stats: ShredSigVerifyStats,
    before: Seq<Seq<PacketView>>,
    after: Seq<Seq<PacketView>>,
)
    requires
        can_start(stats, before.len(), total_packets(before)),
        total_discards(before) <= total_discards(after) <= total_packets(before),
    ensures
        ({
            let counted = round_counted(stats, before, after);
            &&& counted.num_iters == stats.num_iters + 1
            &&& counted.num_batches == stats.num_batches + before.len()
            &&& counted.num_packets == stats.num_packets
            &&& counted.num_discards_pre == stats.num_discards_pre + total_discards(before)
            &&& counted.num_deduper_saturations == stats.num_deduper_saturations
            &&& counted.num_discards_post == stats.num_discards_post
            &&& counted.num_duplicates + total_discards(before) == stats.num_duplicates
                + total_discards(after)
            &&& counted.num_invalid_retransmitter == stats.num_invalid_retransmitter
            &&& counted.num_retranmitter_signature_skipped
                == stats.num_retranmitter_signature_skipped
            &&& counted.num_retranmitter_signature_verified
                == stats.num_retranmitter_signature_verified
            &&& counted.num_retransmit_stage_overflow_shreds
                == stats.num_retransmit_stage_overflow_shreds
            &&& counted.num_retransmit_shreds == stats.num_retransmit_shreds
            &&& counted.num_unknown_block_location == stats.num_unknown_block_location
            &&& counted.num_unknown_slot_leader == stats.num_unknown_slot_leader
            &&& counted.num_unknown_turbine_parent == stats.num_unknown_turbine_parent
            &&& counted.elapsed_micros == stats.elapsed_micros
            &&& counted.verify_and_resign_micros == stats.verify_and_resign_micros
            &&& counted.since == stats.since
        }),
{
}

/// What the workers counted is added to the counters of the stage and to the totals, and so is the
/// time that they took. No other counter changes.
pub proof fn ends_of_verification_are_counted(
    stats: ShredSigVerifyStats,
    totals: VerifyTotals,
    worker: SigverifyWorkerStats,
    elapsed_micros: u128,
)
    requires
        can_end_verification(stats, totals, worker, elapsed_micros),
    ensures
        ({
            let counted = verification_counted(stats, worker, elapsed_micros);
            &&& counted.num_iters == stats.num_iters
            &&& counted.num_batches == stats.num_batches
            &&& counted.num_packets == stats.num_packets
            &&& counted.num_discards_pre == stats.num_discards_pre
            &&& counted.num_deduper_saturations == stats.num_deduper_saturations
            &&& counted.num_discards_post == stats.num_discards_post + worker.num_discards_post
            &&& counted.num_duplicates == stats.num_duplicates
            &&& counted.num_invalid_retransmitter
                == stats.num_invalid_retransmitter + worker.num_invalid_retransmitter
            &&& counted.num_retranmitter_signature_skipped
                == stats.num_retranmitter_signature_skipped
                + worker.num_retranmitter_signature_skipped
            &&& counted.num_retranmitter_signature_verified
                == stats.num_retranmitter_signature_verified
                + worker.num_retranmitter_signature_verified
            &&& counted.num_retransmit_stage_overflow_shreds
                == stats.num_retransmit_stage_overflow_shreds
            &&& counted.num_retransmit_shreds == stats.num_retransmit_shreds
            &&& counted.num_unknown_block_location == stats.num_unknown_block_location
            &&& counted.num_unknown_slot_leader
                == stats.num_unknown_slot_leader + worker.num_unknown_slot_leader
            &&& counted.num_unknown_turbine_parent
                == stats.num_unknown_turbine_parent + worker.num_unknown_turbine_parent
            &&& counted.elapsed_micros == stats.elapsed_micros
            &&& elapsed_micros <= u64::MAX ==> counted.verify_and_resign_micros
                == stats.verify_and_resign_micros + elapsed_micros
            &&& counted.since == stats.since
        }),
        totals.plus(worker).verify_calls == totals.verify_calls + worker.num_verify_calls,
        totals.plus(worker).verify_failed == totals.verify_failed + worker.num_verify_failed,
{
}

/// A packet is marked when the workers get it if and only if it was received marked, or it answers
/// no repair request and holds no shred or one of which every bit was set when the filter came to
/// it, or its slot can be told and the schedule names no leader for it or names this node. Nothing
/// else about packets changes, and none goes missing.
pub proof fn prepared_packets_are_marked_for_a_reason(
    filter: FilterView,
    received: Seq<Seq<PacketView>>,
    round: RoundFactsView,
    b: int,
    i: int,
)
    requires
        same_shape(received, round.sizes),
        same_shape(received, round.slots),
        0 <= b < received.len(),
        0 <= i < received[b].len(),
    ensures
        ({
            let prepared = round_prepared(filter, received, round);
            let packet = received[b][i];
            let known = match shred_in(packet, round.sizes[b][i]) {
                Some(shred) => forall|bit: u64| #[trigger]
                    (filter.bits_of)(shred).contains(bit) ==> filter.bits.contains(bit)
                        || bit_shown_before(filter, received, round.sizes, b, i, bit),
                None => true,
            };
            let leaderless = round.slots[b][i] matches Some(slot) && (!round.schedule.contains_key(
                slot,
            ) || round.schedule[slot] == round.self_pubkey);
            &&& prepared.len() == received.len()
            &&& prepared[b].len() == received[b].len()
            &&& prepared[b][i].discard <==> packet.discard || (!packet.repair && known)
                || leaderless
            &&& prepared[b][i].bytes == packet.bytes
            &&& prepared[b][i].repair == packet.repair
            &&& prepared[b][i].shared == packet.shared
        }),
{
    let reports = all_reports(filter, received, round.sizes);
    let deduped = batches_deduped(filter, received, round.sizes);
    reports_follow_the_filter(filter, received, round.sizes, b, i);
    assert(same_shape(received, reports));
    marks_follow_the_reports(received, reports, b, i);
    lemma_deduped_lengths(filter, received, round.sizes);
    lemma_slots_fit(received, deduped, round.slots);
    packets_without_a_leader_are_marked(
        round.schedule,
        round.self_pubkey,
        deduped,
        round.slots,
        b,
        i,
    );
    if let Some(known) = reports[b][i] {
        assert(reports[b][i] == Some(known));
    }
}

proof fn lemma_slots_fit(
    received: Seq<Seq<PacketView>>,
    deduped: Seq<Seq<PacketView>>,
    slots: Seq<Seq<Option<u64>>>,
)
    requires
        same_shape(received, slots),
        deduped.len() == received.len(),
        forall|b: int|
            0 <= b < received.len() ==> (#[trigger] received[b]).len() == deduped[b].len(),
    ensures
        same_shape(deduped, slots),
{
    assert forall|b: int| 0 <= b < deduped.len() implies (#[trigger] slots[b]).len()
        == deduped[b].len() by {
        assert(received[b].len() == deduped[b].len());
    }
}

/// The workers get a leader for a slot, other than the last of all, if and only if a packet with a
/// shred of that slot is left and the schedule names a leader for it that is not this node. It is
/// the one that the schedule names. For the last slot of all they get a key of zeros.
pub proof fn workers_get_the_leaders_of_the_packets_left(
    slot_pubkeys: Map<u64, Pubkey>,
    deduped: Seq<Seq<PacketView>>,
    round: RoundFactsView,
    slot: u64,
)
    requires
        same_shape(deduped, round.slots),
        leaders_collected(slot_pubkeys, deduped, round),
    ensures
        slot != u64::MAX ==> (slot_pubkeys.contains_key(slot) <==> {
            &&& round.schedule.contains_key(slot)
            &&& round.schedule[slot] != round.self_pubkey
            &&& exists|b: int, i: int|
                {
                    &&& 0 <= b < deduped.len()
                    &&& 0 <= i < deduped[b].len()
                    &&& !(#[trigger] deduped[b][i]).discard
                    &&& round.slots[b][i] == Some(slot)
                }
        }),
        slot != u64::MAX && slot_pubkeys.contains_key(slot) ==> slot_pubkeys[slot]
            == round.schedule[slot],
        slot_pubkeys.contains_key(u64::MAX),
        forall|j: int| 0 <= j < 32 ==> slot_pubkeys[u64::MAX]@[j] == 0,
{
    let (schedule, self_pubkey, slots) = (round.schedule, round.self_pubkey, round.slots);
    let leaders = leaders_of_batches(schedule, self_pubkey, deduped, slots, deduped.len());
    let known = known_leaders(leaders, leaders.len());
    let kept = leaderless_batches_marked(schedule, self_pubkey, deduped, slots);
    collected_leaders_are_those_of_kept_packets(schedule, self_pubkey, deduped, slots, slot);
    if slot != u64::MAX {
        assert(slot_pubkeys.remove(u64::MAX).contains_key(slot) == slot_pubkeys.contains_key(slot));
        assert(known.remove(u64::MAX).contains_key(slot) == known.contains_key(slot));
        assert(slot_pubkeys.remove(u64::MAX)[slot] == slot_pubkeys[slot]);
        assert(known.remove(u64::MAX)[slot] == known[slot]);
        if known.contains_key(slot) {
            let b = choose|b: int|
                0 <= b < kept.len() && #[trigger] batch_has_slot(
                    kept[b],
                    slots[b],
                    kept[b].len(),
                    slot,
                );
            let i = choose|i: int|
                0 <= i < kept[b].len() && !(#[trigger] kept[b][i]).discard && slots[b][i] == Some(
                    slot,
                );
            packets_without_a_leader_are_marked(schedule, self_pubkey, deduped, slots, b, i);
            assert(!deduped[b][i].discard);
        } else if schedule.contains_key(slot) && schedule[slot] != self_pubkey {
            assert forall|b: int, i: int|
                0 <= b < deduped.len() && 0 <= i < deduped[b].len() && !(
                #[trigger] deduped[b][i]).discard implies slots[b][i] != Some(slot) by {
                if slots[b][i] == Some(slot) {
                    packets_without_a_leader_are_marked(
                        schedule,
                        self_pubkey,
                        deduped,
                        slots,
                        b,
                        i,
                    );
                    assert(!kept[b][i].discard);
                    assert(batch_has_slot(kept[b], slots[b], kept[b].len(), slot));
                    assert(batches_have_slot(kept, slots, kept.len(), slot));
                }
            }
        }
    }
}

/// What is known of the packets of a round is viewed as it is.
pub proof fn facts_of_a_round_are_viewed_as_they_are(round: RoundFacts, b: int)
    ensures
        round@.sizes.len() == round.sizes@.len(),
        round@.slots.len() == round.slots@.len(),
        0 <= b < round.sizes@.len() ==> round@.sizes[b] == round.sizes@[b]@,
        0 <= b < round.slots@.len() ==> round@.slots[b] == round.slots@[b]@,
        round@.schedule == round.schedule@,
        round@.self_pubkey == round.self_pubkey,
{
}

} // verus!
