//! What the signature verification workers do with a batch of packets.

use crate::counting::{
    count_to, counts_are_numbers_of_positions, lemma_count_bound, lemma_count_concat,
    lemma_count_split, lemma_count_step, lemma_positions_same, positions,
};
use crate::deduper::same_shape;
use crate::packets::{
    batch_packets, batch_views, discards, grouping_of_discards_does_not_count, lemma_same_total,
    lemma_total_packets_prefix, lemma_total_remove, packet_discard, packet_repair,
    set_packet_discard, total_packets, PacketView,
};
use crate::retransmitter::{
    maybe_verify_and_resign_packet, resign_counted, resign_decision, retransmitter_checked,
    retransmitter_verdict, ResignAction, ResignError, ResignFacts, RetransmitterVerdict,
    ShredError,
};
use crate::stats::SigverifyWorkerStats;
use solana_perf::packet::PacketBatch;
use vstd::prelude::*;

verus! {

/// What decides over a packet.
#[derive(Debug, Clone, Copy)]
pub struct PacketFacts {
    /// Whether the shred carries the signature of the leader of its slot.
    pub leader_signature_valid: bool,
    /// What decides whether the packet is resigned.
    pub resign: ResignFacts,
}

/// What becomes of a packet.
#[derive(Debug, Clone, Copy, PartialEq, Eq)]
pub enum PacketOutcome {
    /// It was marked for discard before.
    Ignored,
    /// Its shred does not carry the signature of the leader.
    WrongLeaderSignature,
    /// Its shred carries a wrong retransmitter signature, or cannot be read.
    Rejected(ResignError),
    /// It passes as it is.
    Passed,
    /// It passes once this node has signed it as its retransmitter.
    Resigned,
}

/// What becomes of a packet.
pub open spec fn packet_outcome(packet: PacketView, facts: PacketFacts) -> PacketOutcome {
    if packet.discard {
        PacketOutcome::Ignored
    } else if !facts.leader_signature_valid {
        PacketOutcome::WrongLeaderSignature
    } else {
        match resign_decision(packet.repair, facts.resign) {
            Err(err) => PacketOutcome::Rejected(err),
            Ok(ResignAction::Leave) => PacketOutcome::Passed,
            Ok(ResignAction::Resign) => PacketOutcome::Resigned,
        }
    }
}

/// Whether the packet is marked for discard by its outcome.
pub open spec fn drops(outcome: PacketOutcome) -> bool {
    outcome is WrongLeaderSignature || outcome is Rejected
}

/// What becomes of the packets of a batch, in order.
pub open spec fn batch_outcomes(packets: Seq<PacketView>, facts: Seq<PacketFacts>) -> Seq<
    PacketOutcome,
> {
    Seq::new(packets.len(), |i: int| packet_outcome(packets[i], facts[i]))
}

/// The packets of a batch, with those marked that are dropped.
pub open spec fn batch_verified(packets: Seq<PacketView>, facts: Seq<PacketFacts>) -> Seq<
    PacketView,
> {
    Seq::new(packets.len(), |i: int| packet_verified(packets[i], facts[i]))
}

/// How the check of the retransmitter signature of a packet ends, if there is one.
pub open spec fn packet_verdict(packet: PacketView, facts: PacketFacts) -> Option<
    RetransmitterVerdict,
> {
    if !packet.discard && facts.leader_signature_valid && retransmitter_checked(
        packet.repair,
        facts.resign,
    ) {
        Some(retransmitter_verdict(facts.resign.retransmitter))
    } else {
        None
    }
}

/// What is counted of the first `n` packets of a batch. Packets that are dropped for their
/// retransmitter signature do not count as discards.
pub open spec fn batch_stats(
    packets: Seq<PacketView>,
    facts: Seq<PacketFacts>,
    n: nat,
) -> SigverifyWorkerStats {
    SigverifyWorkerStats {
        num_verify_calls: count_to(n, |i: int| !packets[i].discard) as usize,
        num_verify_failed: count_to(
            n,
            |i: int| packet_outcome(packets[i], facts[i]) is WrongLeaderSignature,
        ) as usize,
        num_discards_post: count_to(
            n,
            |i: int| packets[i].discard || !facts[i].leader_signature_valid,
        ) as usize,
        num_invalid_retransmitter: count_to(
            n,
            |i: int|
                packet_verdict(packets[i], facts[i]) matches Some(verdict) && !verdict.passes(),
        ) as usize,
        num_retranmitter_signature_skipped: count_to(
            n,
            |i: int|
                packet_verdict(packets[i], facts[i]) matches Some(verdict) && verdict is Skipped,
        ) as usize,
        num_retranmitter_signature_verified: count_to(
            n,
            |i: int|
                packet_verdict(packets[i], facts[i]) matches Some(verdict) && verdict is Verified,
        ) as usize,
        num_unknown_slot_leader: count_to(
            n,
            |i: int|
                packet_verdict(packets[i], facts[i]) matches Some(verdict)
                    && verdict is UnknownLeader,
        ) as usize,
        num_unknown_turbine_parent: count_to(
            n,
            |i: int|
                packet_verdict(packets[i], facts[i]) matches Some(verdict)
                    && verdict is UnknownParent,
        ) as usize,
    }
}

/// The counters after one more packet.
pub open spec fn packet_counted(
    packet: PacketView,
    facts: PacketFacts,
    stats: SigverifyWorkerStats,
) -> SigverifyWorkerStats {
    if packet.discard {
        SigverifyWorkerStats { num_discards_post: (stats.num_discards_post + 1) as usize, ..stats }
    } else if !facts.leader_signature_valid {
        SigverifyWorkerStats {
            num_verify_calls: (stats.num_verify_calls + 1) as usize,
            num_verify_failed: (stats.num_verify_failed + 1) as usize,
            num_discards_post: (stats.num_discards_post + 1) as usize,
            ..stats
        }
    } else {
        resign_counted(
            packet.repair,
            facts.resign,
            SigverifyWorkerStats {
                num_verify_calls: (stats.num_verify_calls + 1) as usize,
                ..stats
            },
        )
    }
}

/// Counting one packet more gives the counts of a batch that is one packet longer.
proof fn lemma_batch_stats_step(packets: Seq<PacketView>, facts: Seq<PacketFacts>, n: nat)
    requires
        n < packets.len() <= usize::MAX,
    ensures
        batch_stats(packets, facts, n).at_most(n),
        batch_stats(packets, facts, n + 1) == packet_counted(
            packets[n as int],
            facts[n as int],
            batch_stats(packets, facts, n),
        ),
{
    lemma_count_step(n, |i: int| !packets[i].discard);
    lemma_count_step(n, |i: int| packet_outcome(packets[i], facts[i]) is WrongLeaderSignature);
    lemma_count_step(n, |i: int| packets[i].discard || !facts[i].leader_signature_valid);
    lemma_count_step(
        n,
        |i: int| packet_verdict(packets[i], facts[i]) matches Some(verdict) && !verdict.passes(),
    );
    lemma_count_step(
        n,
        |i: int| packet_verdict(packets[i], facts[i]) matches Some(verdict) && verdict is Skipped,
    );
    lemma_count_step(
        n,
        |i: int| packet_verdict(packets[i], facts[i]) matches Some(verdict) && verdict is Verified,
    );
    lemma_count_step(
        n,
        |i: int|
            packet_verdict(packets[i], facts[i]) matches Some(verdict) && verdict is UnknownLeader,
    );
    lemma_count_step(
        n,
        |i: int|
            packet_verdict(packets[i], facts[i]) matches Some(verdict) && verdict is UnknownParent,
    );
}

/// No counter exceeds the number of packets.
proof fn lemma_batch_stats_bound(packets: Seq<PacketView>, facts: Seq<PacketFacts>, n: nat)
    requires
        n <= packets.len() <= usize::MAX,
    ensures
        batch_stats(packets, facts, n).at_most(n),
    decreases n,
{
    if n > 0 {
        lemma_batch_stats_bound(packets, facts, (n - 1) as nat);
        lemma_batch_stats_step(packets, facts, (n - 1) as nat);
    }
}

/// The packet after it was verified: marked, if it is dropped.
pub open spec fn packet_verified(packet: PacketView, facts: PacketFacts) -> PacketView {
    if drops(packet_outcome(packet, facts)) {
        packet.discarded()
    } else {
        packet
    }
}

/// Decides what becomes of a packet, counts it, and marks it for discard if it is dropped.
fn verify_packet(
    batch: &mut PacketBatch,
    index: usize,
    facts: &PacketFacts,
    stats: &mut SigverifyWorkerStats,
) -> (outcome: PacketOutcome)
    requires
        index < batch_packets(*old(batch)).len(),
        old(stats).at_most((usize::MAX - 1) as nat),
    ensures
        ({
            let packet = batch_packets(*old(batch))[index as int];
            &&& outcome == packet_outcome(packet, *facts)
            &&& *final(stats) == packet_counted(packet, *facts, *old(stats))
            &&& batch_packets(*final(batch)) == batch_packets(*old(batch)).update(
                index as int,
                packet_verified(packet, *facts),
            )
        }),
{
    let ghost packets = batch_packets(*batch);
    if packet_discard(batch, index) {
        stats.num_discards_post += 1;
        assert(packets.update(index as int, packets[index as int]) =~= packets);
        return PacketOutcome::Ignored;
    }
    stats.num_verify_calls += 1;
    if !facts.leader_signature_valid {
        stats.num_verify_failed += 1;
        set_packet_discard(batch, index);
        stats.num_discards_post += 1;
        return PacketOutcome::WrongLeaderSignature;
    }
    let repair: bool = packet_repair(batch, index);
    match maybe_verify_and_resign_packet(repair, &facts.resign, stats) {
        Err(err) => {
            set_packet_discard(batch, index);
            PacketOutcome::Rejected(err)
        },
        Ok(ResignAction::Leave) => {
            assert(packets.update(index as int, packets[index as int]) =~= packets);
            PacketOutcome::Passed
        },
        Ok(ResignAction::Resign) => {
            assert(packets.update(index as int, packets[index as int]) =~= packets);
            PacketOutcome::Resigned
        },
    }
}

/// Verifies the packets of a batch, and marks those for discard that are dropped. Returns what
/// was counted, and what becomes of each packet: this node still has to sign those that are to be
/// resigned.
pub fn verify_batch(batch: &mut PacketBatch, facts: &[PacketFacts]) -> (result: (
    SigverifyWorkerStats,
    Vec<PacketOutcome>,
))
    requires
        facts@.len() == batch_packets(*old(batch)).len(),
    ensures
        batch_packets(*final(batch)) == batch_verified(batch_packets(*old(batch)), facts@),
        result.0 == batch_stats(batch_packets(*old(batch)), facts@, facts@.len()),
        result.0.at_most(facts@.len()),
        result.1@ == batch_outcomes(batch_packets(*old(batch)), facts@),
{
    let ghost before = batch_packets(*batch);
    let ghost verified = batch_verified(before, facts@);
    let mut stats = SigverifyWorkerStats::default();
    let mut outcomes: Vec<PacketOutcome> = Vec::new();
    for index in 0..facts.len()
        invariant
            before.len() == facts@.len(),
            verified == batch_verified(before, facts@),
            batch_packets(*batch) == verified.take(index as int) + before.skip(index as int),
            stats == batch_stats(before, facts@, index as nat),
            outcomes@ == batch_outcomes(before, facts@).take(index as int),
    {
        proof {
            lemma_batch_stats_bound(before, facts@, index as nat);
            lemma_batch_stats_step(before, facts@, index as nat);
        }
        let ghost current = batch_packets(*batch);
        assert(current[index as int] == before[index as int]);
        let outcome = verify_packet(batch, index, &facts[index], &mut stats);
        outcomes.push(outcome);
        assert(batch_packets(*batch) =~= verified.take(index + 1) + before.skip(index + 1));
        assert(outcomes@ =~= batch_outcomes(before, facts@).take(index + 1));
    }
    proof {
        lemma_batch_stats_bound(before, facts@, facts@.len());
        assert(verified.take(facts@.len() as int) + before.skip(facts@.len() as int) =~= verified);
        assert(batch_outcomes(before, facts@).take(facts@.len() as int) =~= batch_outcomes(
            before,
            facts@,
        ));
    }
    (stats, outcomes)
}

/// The packets of a batch, with those marked that could not be signed.
pub open spec fn unsigned_marked(packets: Seq<PacketView>, failed: Seq<bool>) -> Seq<PacketView> {
    Seq::new(
        packets.len(),
        |i: int|
            if failed[i] {
                packets[i].discarded()
            } else {
                packets[i]
            },
    )
}

/// Marks the packets for discard that this node failed to sign.
pub fn discard_unsigned(batch: &mut PacketBatch, failed: &[bool])
    requires
        failed@.len() == batch_packets(*old(batch)).len(),
    ensures
        batch_packets(*final(batch)) == unsigned_marked(batch_packets(*old(batch)), failed@),
{
    let ghost before = batch_packets(*batch);
    let ghost marked = unsigned_marked(before, failed@);
    for index in 0..failed.len()
        invariant
            before.len() == failed@.len(),
            marked == unsigned_marked(before, failed@),
            batch_packets(*batch) == marked.take(index as int) + before.skip(index as int),
    {
        let ghost current = batch_packets(*batch);
        assert(current[index as int] == before[index as int]);
        if failed[index] {
            set_packet_discard(batch, index);
        }
        assert(batch_packets(*batch) =~= marked.take(index + 1) + before.skip(index + 1));
    }
    assert(marked.take(failed@.len() as int) + before.skip(failed@.len() as int) =~= marked);
}

/// What a worker returns of a batch.
pub struct BatchResult {
    /// The batch, with the packets marked that are dropped.
    pub batch: PacketBatch,
    /// What the worker counted.
    pub stats: SigverifyWorkerStats,
}

impl BatchResult {
    /// No counter exceeds the number of packets in the batch.
    pub open spec fn wf(self) -> bool {
        self.stats.at_most(batch_packets(self.batch).len())
    }
}

/// The batches that workers returned, in the order in which they did.
pub open spec fn result_batches(results: Seq<BatchResult>) -> Seq<PacketBatch> {
    results.map_values(|result: BatchResult| result.batch)
}

/// What workers counted, added up.
pub open spec fn result_stats(results: Seq<BatchResult>) -> SigverifyWorkerStats
    decreases results.len(),
{
    if results.len() == 0 {
        SigverifyWorkerStats::zero()
    } else {
        result_stats(results.drop_last()).plus(results.last().stats)
    }
}

/// No sum exceeds the number of packets, over all batches.
proof fn lemma_result_stats_bound(results: Seq<BatchResult>)
    requires
        forall|i: int| 0 <= i < results.len() ==> (#[trigger] results[i]).wf(),
        total_packets(batch_views(result_batches(results))) <= usize::MAX,
    ensures
        result_stats(results).at_most(total_packets(batch_views(result_batches(results)))),
    decreases results.len(),
{
    if results.len() > 0 {
        let views = batch_views(result_batches(results));
        assert(batch_views(result_batches(results.drop_last())) =~= views.drop_last());
        assert(results.last().wf());
        lemma_result_stats_bound(results.drop_last());
    }
}

/// Puts together what the workers returned: the batches, in the order in which they came back,
/// and the sum of what was counted.
pub fn collect_results(results: Vec<BatchResult>, packets: &mut Vec<PacketBatch>) -> (stats:
    SigverifyWorkerStats)
    requires
        old(packets)@.len() == 0,
        forall|i: int| 0 <= i < results@.len() ==> (#[trigger] results@[i]).wf(),
        total_packets(batch_views(result_batches(results@))) <= usize::MAX,
    ensures
        final(packets)@ == result_batches(results@),
        stats == result_stats(results@),
        stats.at_most(total_packets(batch_views(final(packets)@))),
{
    let ghost all = results@;
    let ghost views = batch_views(result_batches(all));
    let mut stats = SigverifyWorkerStats::default();
    for result in it: results
        invariant
            it.seq() == all,
            views == batch_views(result_batches(all)),
            forall|i: int| 0 <= i < all.len() ==> (#[trigger] all[i]).wf(),
            total_packets(views) <= usize::MAX,
            packets@ == result_batches(all.take(it.index() as int)),
            stats == result_stats(all.take(it.index() as int)),
    {
        let ghost n = it.index() as int;
        proof {
            let next = all.take(n + 1);
            assert(next.drop_last() =~= all.take(n));
            assert(batch_views(result_batches(next)) =~= views.take(n + 1));
            lemma_total_packets_prefix(views, n + 1);
            assert(next.last().wf());
            assert(batch_views(result_batches(all.take(n))) =~= views.take(n));
            assert(views.take(n + 1).drop_last() =~= views.take(n));
            assert(views.take(n + 1).last() == batch_packets(all[n].batch));
            lemma_result_stats_bound(all.take(n));
        }
        packets.push(result.batch);
        stats.accumulate(result.stats);
        assert(packets@ =~= result_batches(all.take(n + 1)));
    }
    proof {
        assert(all.take(all.len() as int) =~= all);
        lemma_result_stats_bound(all);
    }
    stats
}

/// Packets are only ever marked, never unmarked, and nothing else about them changes.
pub proof fn verifying_only_marks(packets: Seq<PacketView>, facts: Seq<PacketFacts>, i: int)
    requires
        0 <= i < packets.len(),
    ensures
        batch_verified(packets, facts).len() == packets.len(),
        batch_verified(packets, facts)[i] == packets[i] || batch_verified(packets, facts)[i]
            == packets[i].discarded(),
        packets[i].discard ==> batch_verified(packets, facts)[i].discard,
{
}

/// A packet that is kept was not marked before, its shred carries the signature of the leader, and
/// where a wrong retransmitter signature counts, it carries no wrong one, unless it answers a
/// repair request.
pub proof fn kept_packets_are_verified(packets: Seq<PacketView>, facts: Seq<PacketFacts>, i: int)
    requires
        0 <= i < packets.len(),
        !batch_verified(packets, facts)[i].discard,
    ensures
        !packets[i].discard,
        facts[i].leader_signature_valid,
        facts[i].resign.retransmitter_signed matches Some(Ok(_)),
        facts[i].resign.retransmitter_signed == Some(Ok::<bool, ShredError>(true))
            && !packets[i].repair && facts[i].resign.enforced == Some(true)
            ==> retransmitter_verdict(facts[i].resign.retransmitter).passes(),
{
}

/// A packet that answers a repair request is kept, whatever its retransmitter signature, if its
/// shred can be read and carries the signature of the leader.
pub proof fn repairs_need_no_retransmitter_signature(
    packets: Seq<PacketView>,
    facts: Seq<PacketFacts>,
    i: int,
)
    requires
        0 <= i < packets.len(),
        packets[i].repair,
        facts[i].leader_signature_valid,
        facts[i].resign.retransmitter_signed matches Some(Ok(_)),
    ensures
        batch_verified(packets, facts)[i] == packets[i],
{
}

/// Each packet is either checked or was marked before, and what counts as a discard is what was
/// marked before or has a wrong leader signature. In the end those are marked, and those that were
/// rejected.
pub proof fn worker_counts_add_up(packets: Seq<PacketView>, facts: Seq<PacketFacts>)
    requires
        packets.len() == facts.len(),
        packets.len() <= usize::MAX,
    ensures
        ({
            let stats = batch_stats(packets, facts, packets.len());
            &&& stats.num_verify_calls + discards(packets) == packets.len()
            &&& stats.num_discards_post == discards(packets) + stats.num_verify_failed
            &&& stats.num_verify_failed <= stats.num_verify_calls
            &&& discards(batch_verified(packets, facts)) == stats.num_discards_post + count_to(
                packets.len(),
                |i: int| packet_outcome(packets[i], facts[i]) is Rejected,
            )
            &&& stats.num_unknown_slot_leader + stats.num_unknown_turbine_parent
                <= stats.num_invalid_retransmitter
            &&& stats.num_invalid_retransmitter + stats.num_retranmitter_signature_skipped
                + stats.num_retranmitter_signature_verified <= stats.num_verify_calls
        }),
{
    lemma_counts_add_up(packets, facts, packets.len());
    let verified = batch_verified(packets, facts);
    let n = packets.len();
    let counted = |i: int| packets[i].discard || !facts[i].leader_signature_valid;
    let rejected = |i: int| packet_outcome(packets[i], facts[i]) is Rejected;
    let marked = |i: int| verified[i].discard;
    lemma_count_split(n, counted, rejected, marked);
    lemma_count_bound(n, counted);
}

proof fn lemma_counts_add_up(packets: Seq<PacketView>, facts: Seq<PacketFacts>, n: nat)
    requires
        packets.len() == facts.len(),
        n <= packets.len() <= usize::MAX,
    ensures
        ({
            let stats = batch_stats(packets, facts, n);
            let marked = count_to(n, |i: int| packets[i].discard);
            &&& stats.num_verify_calls + marked == n
            &&& stats.num_discards_post == marked + stats.num_verify_failed
            &&& stats.num_verify_failed <= stats.num_verify_calls
            &&& stats.num_unknown_slot_leader + stats.num_unknown_turbine_parent
                <= stats.num_invalid_retransmitter
            &&& stats.num_invalid_retransmitter + stats.num_retranmitter_signature_skipped
                + stats.num_retranmitter_signature_verified <= stats.num_verify_calls
        }),
    decreases n,
{
    if n > 0 {
        let m = (n - 1) as nat;
        lemma_counts_add_up(packets, facts, m);
        lemma_batch_stats_bound(packets, facts, m);
        lemma_batch_stats_step(packets, facts, m);
        lemma_count_step(m, |i: int| packets[i].discard);
    }
}

/// A result can be taken out of the sum.
proof fn lemma_result_stats_remove(results: Seq<BatchResult>, j: int)
    requires
        0 <= j < results.len(),
        forall|i: int| 0 <= i < results.len() ==> (#[trigger] results[i]).wf(),
        total_packets(batch_views(result_batches(results))) <= usize::MAX,
    ensures
        result_stats(results) == result_stats(results.remove(j)).plus(results[j].stats),
        total_packets(batch_views(result_batches(results))) == total_packets(
            batch_views(result_batches(results.remove(j))),
        ) + batch_packets(results[j].batch).len(),
        forall|i: int| 0 <= i < results.remove(j).len() ==> (#[trigger] results.remove(j)[i]).wf(),
    decreases results.len(),
{
    let rest = results.remove(j);
    let views = batch_views(result_batches(results));
    assert(batch_views(result_batches(results.drop_last())) =~= views.drop_last());
    assert(views.last() == batch_packets(results.last().batch));
    assert forall|i: int| 0 <= i < rest.len() implies (#[trigger] rest[i]).wf() by {
        if i < j {
            assert(rest[i] == results[i]);
        } else {
            assert(rest[i] == results[i + 1]);
        }
    }
    if j == results.len() - 1 {
        assert(rest =~= results.drop_last());
    } else {
        let shorter = results.drop_last();
        assert forall|i: int| 0 <= i < shorter.len() implies (#[trigger] shorter[i]).wf() by {
            assert(shorter[i] == results[i]);
        }
        lemma_result_stats_remove(shorter, j);
        assert(rest.drop_last() =~= shorter.remove(j));
        assert(rest.last() == results.last());
        let rest_views = batch_views(result_batches(rest));
        assert(batch_views(result_batches(rest.drop_last())) =~= rest_views.drop_last());
        assert(rest_views.last() == batch_packets(rest.last().batch));
        lemma_result_stats_bound(rest.drop_last());
        assert(results.last().wf());
        assert(results[j].wf());
    }
}

/// The number of packets does not depend on the order of the results.
proof fn lemma_result_totals_permuted(left: Seq<BatchResult>, right: Seq<BatchResult>)
    requires
        left.to_multiset() == right.to_multiset(),
    ensures
        total_packets(batch_views(result_batches(left))) == total_packets(
            batch_views(result_batches(right)),
        ),
    decreases left.len(),
{
    let left_views = batch_views(result_batches(left));
    let right_views = batch_views(result_batches(right));
    left.to_multiset_ensures();
    right.to_multiset_ensures();
    if left.len() > 0 {
        let last = left.len() - 1;
        assert(left.contains(left[last]));
        assert(right.to_multiset().count(left[last]) > 0);
        let j = choose|j: int| 0 <= j < right.len() && right[j] == left[last];
        assert(batch_views(result_batches(left.remove(last))) =~= left_views.remove(last));
        assert(batch_views(result_batches(right.remove(j))) =~= right_views.remove(j));
        assert(left_views[last] == right_views[j]);
        lemma_total_remove(left_views, last);
        lemma_total_remove(right_views, j);
        lemma_result_totals_permuted(left.remove(last), right.remove(j));
    }
}

/// In which order the workers return their results makes no difference to the counts.
pub proof fn order_of_results_does_not_count(left: Seq<BatchResult>, right: Seq<BatchResult>)
    requires
        left.to_multiset() == right.to_multiset(),
        forall|i: int| 0 <= i < left.len() ==> (#[trigger] left[i]).wf(),
        forall|i: int| 0 <= i < right.len() ==> (#[trigger] right[i]).wf(),
        total_packets(batch_views(result_batches(left))) <= usize::MAX,
    ensures
        result_stats(left) == result_stats(right),
    decreases left.len(),
{
    lemma_result_totals_permuted(left, right);
    left.to_multiset_ensures();
    right.to_multiset_ensures();
    if left.len() > 0 {
        let last = left.len() - 1;
        assert(left.contains(left[last]));
        assert(right.to_multiset().count(left[last]) > 0);
        let j = choose|j: int| 0 <= j < right.len() && right[j] == left[last];
        lemma_result_stats_remove(left, last);
        lemma_result_stats_remove(right, j);
        order_of_results_does_not_count(left.remove(last), right.remove(j));
    }
}

/// The counts of a batch are the sums of the counts of its two parts.
proof fn lemma_batch_stats_concat(
    left: Seq<PacketView>,
    left_facts: Seq<PacketFacts>,
    right: Seq<PacketView>,
    right_facts: Seq<PacketFacts>,
)
    requires
        left_facts.len() == left.len(),
        right_facts.len() == right.len(),
        left.len() + right.len() <= usize::MAX,
    ensures
        batch_stats(left + right, left_facts + right_facts, left.len() + right.len())
            == batch_stats(left, left_facts, left.len()).plus(
            batch_stats(right, right_facts, right.len()),
        ),
{
    let packets = left + right;
    let facts = left_facts + right_facts;
    let (m, n) = (left.len(), right.len());
    lemma_count_concat(
        m,
        n,
        |i: int| !packets[i].discard,
        |i: int| !left[i].discard,
        |i: int| !right[i].discard,
    );
    lemma_count_concat(
        m,
        n,
        |i: int| packet_outcome(packets[i], facts[i]) is WrongLeaderSignature,
        |i: int| packet_outcome(left[i], left_facts[i]) is WrongLeaderSignature,
        |i: int| packet_outcome(right[i], right_facts[i]) is WrongLeaderSignature,
    );
    lemma_count_concat(
        m,
        n,
        |i: int| packets[i].discard || !facts[i].leader_signature_valid,
        |i: int| left[i].discard || !left_facts[i].leader_signature_valid,
        |i: int| right[i].discard || !right_facts[i].leader_signature_valid,
    );
    lemma_count_concat(
        m,
        n,
        |i: int| packet_verdict(packets[i], facts[i]) matches Some(verdict) && !verdict.passes(),
        |i: int| packet_verdict(left[i], left_facts[i]) matches Some(verdict) && !verdict.passes(),
        |i: int|
            packet_verdict(right[i], right_facts[i]) matches Some(verdict) && !verdict.passes(),
    );
    lemma_count_concat(
        m,
        n,
        |i: int| packet_verdict(packets[i], facts[i]) matches Some(verdict) && verdict is Skipped,
        |i: int| packet_verdict(left[i], left_facts[i]) matches Some(verdict) && verdict is Skipped,
        |i: int|
            packet_verdict(right[i], right_facts[i]) matches Some(verdict) && verdict is Skipped,
    );
    lemma_count_concat(
        m,
        n,
        |i: int| packet_verdict(packets[i], facts[i]) matches Some(verdict) && verdict is Verified,
        |i: int|
            packet_verdict(left[i], left_facts[i]) matches Some(verdict) && verdict is Verified,
        |i: int|
            packet_verdict(right[i], right_facts[i]) matches Some(verdict) && verdict is Verified,
    );
    lemma_count_concat(
        m,
        n,
        |i: int|
            packet_verdict(packets[i], facts[i]) matches Some(verdict) && verdict is UnknownLeader,
        |i: int|
            packet_verdict(left[i], left_facts[i]) matches Some(verdict)
                && verdict is UnknownLeader,
        |i: int|
            packet_verdict(right[i], right_facts[i]) matches Some(verdict)
                && verdict is UnknownLeader,
    );
    lemma_count_concat(
        m,
        n,
        |i: int|
            packet_verdict(packets[i], facts[i]) matches Some(verdict) && verdict is UnknownParent,
        |i: int|
            packet_verdict(left[i], left_facts[i]) matches Some(verdict)
                && verdict is UnknownParent,
        |i: int|
            packet_verdict(right[i], right_facts[i]) matches Some(verdict)
                && verdict is UnknownParent,
    );
}

/// Several batches, with the packets marked that are dropped.
pub open spec fn batches_verified(
    batches: Seq<Seq<PacketView>>,
    facts: Seq<Seq<PacketFacts>>,
) -> Seq<Seq<PacketView>> {
    Seq::new(batches.len(), |b: int| batch_verified(batches[b], facts[b]))
}

/// The workers returned a result for each batch, in the order of the batches, with what
/// `verify_batch` counts.
pub open spec fn results_counted(
    results: Seq<BatchResult>,
    batches: Seq<Seq<PacketView>>,
    facts: Seq<Seq<PacketFacts>>,
) -> bool {
    &&& same_shape(batches, facts)
    &&& results.len() == batches.len()
    &&& forall|b: int|
        0 <= b < batches.len() ==> {
            &&& batch_packets((#[trigger] results[b]).batch).len() == batches[b].len()
            &&& results[b].stats == batch_stats(batches[b], facts[b], batches[b].len())
        }
}

/// The counts over several batches are those of one batch with all of their packets, and so are
/// the packets that are marked.
pub(crate) proof fn lemma_results_flattened(
    results: Seq<BatchResult>,
    batches: Seq<Seq<PacketView>>,
    facts: Seq<Seq<PacketFacts>>,
)
    requires
        results_counted(results, batches, facts),
        total_packets(batches) <= usize::MAX,
    ensures
        batches.flatten_alt().len() == total_packets(batches),
        facts.flatten_alt().len() == total_packets(batches),
        result_stats(results) == batch_stats(
            batches.flatten_alt(),
            facts.flatten_alt(),
            total_packets(batches),
        ),
        batches_verified(batches, facts).flatten_alt() == batch_verified(
            batches.flatten_alt(),
            facts.flatten_alt(),
        ),
    decreases batches.len(),
{
    if batches.len() == 0 {
        assert(batches_verified(batches, facts).flatten_alt() =~= batch_verified(
            batches.flatten_alt(),
            facts.flatten_alt(),
        ));
    } else {
        let n = batches.len() - 1;
        let shorter = batches.drop_last();
        let shorter_facts = facts.drop_last();
        assert(facts[n].len() == batches[n].len());
        assert(same_shape(shorter, shorter_facts)) by {
            assert forall|b: int| 0 <= b < shorter.len() implies (
            #[trigger] shorter_facts[b]).len() == shorter[b].len() by {
                assert(facts[b].len() == batches[b].len());
            }
        }
        assert(results_counted(results.drop_last(), shorter, shorter_facts)) by {
            assert forall|b: int| 0 <= b < shorter.len() implies {
                &&& batch_packets((#[trigger] results.drop_last()[b]).batch).len()
                    == shorter[b].len()
                &&& results.drop_last()[b].stats == batch_stats(
                    shorter[b],
                    shorter_facts[b],
                    shorter[b].len(),
                )
            } by {
                assert(results[b] == results.drop_last()[b]);
            }
        }
        lemma_results_flattened(results.drop_last(), shorter, shorter_facts);
        lemma_batch_stats_concat(
            shorter.flatten_alt(),
            shorter_facts.flatten_alt(),
            batches[n],
            facts[n],
        );
        assert(results[n].stats == batch_stats(batches[n], facts[n], batches[n].len()));
        let verified = batches_verified(batches, facts);
        assert(verified.drop_last() =~= batches_verified(shorter, shorter_facts));
        assert(verified.flatten_alt() =~= batch_verified(
            batches.flatten_alt(),
            facts.flatten_alt(),
        ));
    }
}

/// How packets are grouped into batches makes no difference: the counts are the same, and so is
/// what becomes of each packet.
pub proof fn grouping_does_not_count(
    left: Seq<Seq<PacketView>>,
    left_facts: Seq<Seq<PacketFacts>>,
    left_results: Seq<BatchResult>,
    right: Seq<Seq<PacketView>>,
    right_facts: Seq<Seq<PacketFacts>>,
    right_results: Seq<BatchResult>,
)
    requires
        results_counted(left_results, left, left_facts),
        results_counted(right_results, right, right_facts),
        left.flatten() == right.flatten(),
        left_facts.flatten() == right_facts.flatten(),
        total_packets(left) <= usize::MAX,
    ensures
        result_stats(left_results) == result_stats(right_results),
        batches_verified(left, left_facts).flatten() == batches_verified(
            right,
            right_facts,
        ).flatten(),
{
    grouping_of_discards_does_not_count(left, right);
    left.lemma_flatten_and_flatten_alt_are_equivalent();
    right.lemma_flatten_and_flatten_alt_are_equivalent();
    left_facts.lemma_flatten_and_flatten_alt_are_equivalent();
    right_facts.lemma_flatten_and_flatten_alt_are_equivalent();
    batches_verified(left, left_facts).lemma_flatten_and_flatten_alt_are_equivalent();
    batches_verified(right, right_facts).lemma_flatten_and_flatten_alt_are_equivalent();
    lemma_results_flattened(left_results, left, left_facts);
    lemma_results_flattened(right_results, right, right_facts);
}

/// Results with what `verify_batch` counts are well-formed, in any order.
pub(crate) proof fn lemma_results_wf(
    ordered: Seq<BatchResult>,
    results: Seq<BatchResult>,
    batches: Seq<Seq<PacketView>>,
    facts: Seq<Seq<PacketFacts>>,
)
    requires
        results_counted(ordered, batches, facts),
        results.to_multiset() == ordered.to_multiset(),
        total_packets(batches) <= usize::MAX,
    ensures
        forall|i: int| 0 <= i < ordered.len() ==> (#[trigger] ordered[i]).wf(),
        forall|i: int| 0 <= i < results.len() ==> (#[trigger] results[i]).wf(),
{
    assert forall|i: int| 0 <= i < ordered.len() implies (#[trigger] ordered[i]).wf() by {
        lemma_total_packets_prefix(batches, i + 1);
        assert(batches.take(i + 1).last() == batches[i]);
        lemma_batch_stats_bound(batches[i], facts[i], batches[i].len());
    }
    ordered.to_multiset_ensures();
    results.to_multiset_ensures();
    assert forall|i: int| 0 <= i < results.len() implies (#[trigger] results[i]).wf() by {
        assert(results.contains(results[i]));
        assert(ordered.to_multiset().count(results[i]) > 0);
        let j = choose|j: int| 0 <= j < ordered.len() && ordered[j] == results[i];
        assert(ordered[j].wf());
    }
}

/// Neither the number of workers nor the grouping of packets into batches makes a difference. The
/// workers return their results in any order: `left_results` and `right_results` are those in
/// `left_ordered` and `right_ordered`, which follow the batches. The counts are the same, and so is
/// what becomes of each packet.
pub proof fn workers_and_grouping_do_not_count(
    left: Seq<Seq<PacketView>>,
    left_facts: Seq<Seq<PacketFacts>>,
    left_ordered: Seq<BatchResult>,
    left_results: Seq<BatchResult>,
    right: Seq<Seq<PacketView>>,
    right_facts: Seq<Seq<PacketFacts>>,
    right_ordered: Seq<BatchResult>,
    right_results: Seq<BatchResult>,
)
    requires
        results_counted(left_ordered, left, left_facts),
        results_counted(right_ordered, right, right_facts),
        left_results.to_multiset() == left_ordered.to_multiset(),
        right_results.to_multiset() == right_ordered.to_multiset(),
        left.flatten() == right.flatten(),
        left_facts.flatten() == right_facts.flatten(),
        total_packets(left) <= usize::MAX,
    ensures
        result_stats(left_results) == result_stats(right_results),
        batches_verified(left, left_facts).flatten() == batches_verified(
            right,
            right_facts,
        ).flatten(),
{
    grouping_of_discards_does_not_count(left, right);
    grouping_does_not_count(left, left_facts, left_ordered, right, right_facts, right_ordered);
    lemma_same_total(left, batch_views(result_batches(left_ordered)));
    lemma_same_total(right, batch_views(result_batches(right_ordered)));
    lemma_results_wf(left_ordered, left_results, left, left_facts);
    lemma_results_wf(right_ordered, right_results, right, right_facts);
    order_of_results_does_not_count(left_ordered, left_results);
    order_of_results_does_not_count(right_ordered, right_results);
}

/// What becomes of a packet has one of five reasons. It was marked before; or its shred does not
/// carry the signature of the leader; or its shred is of a variant that no retransmitter signs, and
/// it passes as it is; or its shred is of a variant that its retransmitter signs, and this node
/// signs it anew, unless it came through the turbine tree with a signature that does not pass where
/// that counts; or it is rejected.
pub proof fn outcomes_have_their_reasons(packets: Seq<PacketView>, facts: Seq<PacketFacts>, i: int)
    requires
        0 <= i < packets.len(),
    ensures
        batch_outcomes(packets, facts).len() == packets.len(),
        ({
            let outcome = batch_outcomes(packets, facts)[i];
            let resign = facts[i].resign;
            let signed = resign.retransmitter_signed == Some(Ok::<bool, ShredError>(true));
            let unsigned = resign.retransmitter_signed == Some(Ok::<bool, ShredError>(false));
            let wrong = !packets[i].repair && resign.enforced == Some(true)
                && !retransmitter_verdict(resign.retransmitter).passes();
            let reached = !packets[i].discard && facts[i].leader_signature_valid;
            &&& outcome is Ignored <==> packets[i].discard
            &&& outcome is WrongLeaderSignature <==> !packets[i].discard
                && !facts[i].leader_signature_valid
            &&& outcome is Passed <==> reached && unsigned
            &&& outcome is Resigned <==> reached && signed && !wrong
            &&& outcome is Rejected <==> reached && !unsigned && (!signed || wrong)
        }),
{
    if let Some(Ok(signed)) = facts[i].resign.retransmitter_signed {
        assert(facts[i].resign.retransmitter_signed == Some(Ok::<bool, ShredError>(signed)));
    }
}

/// A packet is marked in the end if and only if it was marked before, or its shred does not carry
/// the signature of the leader, or cannot be read, or carries a retransmitter signature that does
/// not pass where that counts, unless it answers a repair request. Nothing else about packets
/// changes, and none goes missing.
pub proof fn packets_are_dropped_for_a_reason(
    packets: Seq<PacketView>,
    facts: Seq<PacketFacts>,
    i: int,
)
    requires
        0 <= i < packets.len(),
    ensures
        ({
            let verified = batch_verified(packets, facts);
            let resign = facts[i].resign;
            &&& verified.len() == packets.len()
            &&& verified[i].discard <==> {
                ||| packets[i].discard
                ||| !facts[i].leader_signature_valid
                ||| resign.retransmitter_signed is None
                ||| resign.retransmitter_signed matches Some(Err(_))
                ||| resign.retransmitter_signed == Some(Ok::<bool, ShredError>(true))
                    && !packets[i].repair && resign.enforced == Some(true)
                    && !retransmitter_verdict(resign.retransmitter).passes()
            }
            &&& verified[i].bytes == packets[i].bytes
            &&& verified[i].repair == packets[i].repair
            &&& verified[i].shared == packets[i].shared
        }),
{
    if let Some(Ok(signed)) = facts[i].resign.retransmitter_signed {
        assert(facts[i].resign.retransmitter_signed == Some(Ok::<bool, ShredError>(signed)));
    }
}

/// Whether the retransmitter signature of a packet is checked: the packet is kept up to there, came
/// through the turbine tree, and its shred is of a variant that its retransmitter signs.
pub open spec fn is_checked(packet: PacketView, facts: PacketFacts) -> bool {
    &&& !packet.discard
    &&& facts.leader_signature_valid
    &&& !packet.repair
    &&& facts.resign.retransmitter_signed == Some(Ok::<bool, ShredError>(true))
}

proof fn lemma_counter(n: nat, p: spec_fn(int) -> bool, q: spec_fn(int) -> bool)
    requires
        forall|i: int| 0 <= i < n ==> #[trigger] p(i) == q(i),
    ensures
        count_to(n, p) == positions(n, q).len(),
        count_to(n, p) <= n,
{
    counts_are_numbers_of_positions(n, p);
    lemma_positions_same(n, p, q);
    lemma_count_bound(n, p);
}

/// Each counter of a worker is the number of packets with what it counts.
pub proof fn worker_counters_count_packets(
    packets: Seq<PacketView>,
    facts: Seq<PacketFacts>,
    n: nat,
)
    requires
        n <= packets.len() <= usize::MAX,
    ensures
        ({
            let stats = batch_stats(packets, facts, n);
            &&& stats.num_verify_calls == positions(
                n,
                |i: int| !packets[i].discard,
            ).len()
            &&& stats.num_verify_failed == positions(
                n,
                |i: int| !packets[i].discard && !facts[i].leader_signature_valid,
            ).len()
            &&& stats.num_discards_post == positions(
                n,
                |i: int| packets[i].discard || !facts[i].leader_signature_valid,
            ).len()
            &&& stats.num_invalid_retransmitter == positions(
                n,
                |i: int|
                    is_checked(packets[i], facts[i])
                        && !retransmitter_verdict(facts[i].resign.retransmitter).passes(),
            ).len()
            &&& stats.num_retranmitter_signature_skipped == positions(
                n,
                |i: int|
                    is_checked(packets[i], facts[i])
                        && retransmitter_verdict(facts[i].resign.retransmitter) is Skipped,
            ).len()
            &&& stats.num_retranmitter_signature_verified == positions(
                n,
                |i: int|
                    is_checked(packets[i], facts[i])
                        && retransmitter_verdict(facts[i].resign.retransmitter) is Verified,
            ).len()
            &&& stats.num_unknown_slot_leader == positions(
                n,
                |i: int|
                    is_checked(packets[i], facts[i])
                        && retransmitter_verdict(facts[i].resign.retransmitter) is UnknownLeader,
            ).len()
            &&& stats.num_unknown_turbine_parent == positions(
                n,
                |i: int|
                    is_checked(packets[i], facts[i])
                        && retransmitter_verdict(facts[i].resign.retransmitter) is UnknownParent,
            ).len()
        }),
{
    lemma_counter(
        n,
        |i: int| !packets[i].discard,
        |i: int| !packets[i].discard,
    );
    lemma_counter(
        n,
        |i: int| packet_outcome(packets[i], facts[i]) is WrongLeaderSignature,
        |i: int| !packets[i].discard && !facts[i].leader_signature_valid,
    );
    lemma_counter(
        n,
        |i: int| packets[i].discard || !facts[i].leader_signature_valid,
        |i: int| packets[i].discard || !facts[i].leader_signature_valid,
    );
    lemma_counter(
        n,
        |i: int| packet_verdict(packets[i], facts[i]) matches Some(verdict) && !verdict.passes(),
        |i: int|
            is_checked(packets[i], facts[i])
                && !retransmitter_verdict(facts[i].resign.retransmitter).passes(),
    );
    lemma_counter(
        n,
        |i: int| packet_verdict(packets[i], facts[i]) matches Some(verdict) && verdict is Skipped,
        |i: int|
            is_checked(packets[i], facts[i])
                && retransmitter_verdict(facts[i].resign.retransmitter) is Skipped,
    );
    lemma_counter(
        n,
        |i: int| packet_verdict(packets[i], facts[i]) matches Some(verdict) && verdict is Verified,
        |i: int|
            is_checked(packets[i], facts[i])
                && retransmitter_verdict(facts[i].resign.retransmitter) is Verified,
    );
    lemma_counter(
        n,
        |i: int|
            packet_verdict(packets[i], facts[i]) matches Some(verdict) && verdict is UnknownLeader,
        |i: int|
            is_checked(packets[i], facts[i])
                && retransmitter_verdict(facts[i].resign.retransmitter) is UnknownLeader,
    );
    lemma_counter(
        n,
        |i: int|
            packet_verdict(packets[i], facts[i]) matches Some(verdict) && verdict is UnknownParent,
        |i: int|
            is_checked(packets[i], facts[i])
                && retransmitter_verdict(facts[i].resign.retransmitter) is UnknownParent,
    );
}

/// Exactly those packets are marked that were marked before or that this node failed to sign.
/// Nothing else about packets changes, and none goes missing.
pub proof fn packets_that_were_not_signed_are_marked(
    packets: Seq<PacketView>,
    failed: Seq<bool>,
    i: int,
)
    requires
        0 <= i < packets.len(),
    ensures
        ({
            let marked = unsigned_marked(packets, failed);
            &&& marked.len() == packets.len()
            &&& marked[i].discard <==> packets[i].discard || failed[i]
            &&& marked[i].bytes == packets[i].bytes
            &&& marked[i].repair == packets[i].repair
            &&& marked[i].shared == packets[i].shared
        }),
{
}

/// Results are put together one by one: their batches in order, and each counter added to the sum.
pub proof fn results_are_put_together_one_by_one(results: Seq<BatchResult>, result: BatchResult)
    requires
        result_stats(results).can_add(result.stats),
    ensures
        result_batches(results.push(result)) == result_batches(results).push(result.batch),
        result_batches(results).len() == results.len(),
        ({
            let before = result_stats(results);
            let after = result_stats(results.push(result));
            &&& after.num_verify_calls == before.num_verify_calls + result.stats.num_verify_calls
            &&& after.num_verify_failed == before.num_verify_failed
                + result.stats.num_verify_failed
            &&& after.num_discards_post == before.num_discards_post
                + result.stats.num_discards_post
            &&& after.num_invalid_retransmitter == before.num_invalid_retransmitter
                + result.stats.num_invalid_retransmitter
            &&& after.num_retranmitter_signature_skipped
                == before.num_retranmitter_signature_skipped
                + result.stats.num_retranmitter_signature_skipped
            &&& after.num_retranmitter_signature_verified
                == before.num_retranmitter_signature_verified
                + result.stats.num_retranmitter_signature_verified
            &&& after.num_unknown_slot_leader == before.num_unknown_slot_leader
                + result.stats.num_unknown_slot_leader
            &&& after.num_unknown_turbine_parent == before.num_unknown_turbine_parent
                + result.stats.num_unknown_turbine_parent
        }),
        ({
            let none = result_stats(Seq::empty());
            &&& none.num_verify_calls == 0
            &&& none.num_verify_failed == 0
            &&& none.num_discards_post == 0
            &&& none.num_invalid_retransmitter == 0
            &&& none.num_retranmitter_signature_skipped == 0
            &&& none.num_retranmitter_signature_verified == 0
            &&& none.num_unknown_slot_leader == 0
            &&& none.num_unknown_turbine_parent == 0
        }),
{
    assert(results.push(result).drop_last() =~= results);
    assert(result_batches(results.push(result)) =~= result_batches(results).push(result.batch));
}

} // verus!
