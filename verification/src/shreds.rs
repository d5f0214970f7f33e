//! Passing verified shreds on: to the retransmit stage, and to where they are stored.

use crate::counting::{
    count_to, counts_are_numbers_of_positions, lemma_count_bound, lemma_count_concat,
    lemma_count_step, lemma_positions_same, positions, positions_have_the_property,
};
use crate::deduper::{inner_views, same_shape};
use crate::packets::{
    batch_len, batch_packets, batch_views, buffer_bytes, buffer_copied_from, buffer_handle,
    buffer_prefix, lemma_total_packets_prefix, packet_buffer, packet_data, packet_discard,
    total_packets, PacketView,
};
use crate::stats::ShredSigVerifyStats;
use solana_perf::packet::bytes::Bytes;
use solana_perf::packet::PacketBatch;
use vstd::prelude::*;

verus! {

/// Where a shred is stored.
#[derive(Debug, Clone, Copy, PartialEq, Eq)]
pub enum BlockLocation {
    /// With the block that came through the turbine tree.
    Original,
    /// With another version of the block.
    Alternate {
        /// Which version.
        block_id: [u8; 32],
    },
}

/// What lies where in a packet.
#[derive(Debug, Clone, Copy, PartialEq, Eq)]
pub struct ShredLayout {
    /// The size of the shred, which the packet starts with.
    pub size: usize,
    /// The nonce of the repair request that the packet answers, if it answers one.
    pub nonce: Option<u32>,
}

/// The layout is one that the packet can have.
pub open spec fn layout_fits(packet: PacketView, layout: Option<ShredLayout>) -> bool {
    layout matches Some(layout) ==> {
        &&& !packet.discard
        &&& packet.bytes matches Some(bytes) && layout.size <= bytes.len()
    }
}

/// The nonce that a location is looked up by, if one is: the nonce in a packet that is kept.
pub open spec fn nonce_in(packet: PacketView, layout: Option<ShredLayout>) -> Option<u32> {
    match layout {
        Some(layout) if !packet.discard => layout.nonce,
        _ => None,
    }
}

/// The shred in a packet and the location that was found for it. A shred that did not come by
/// repair needs none; one that did is lost if none was found.
pub open spec fn placed(
    packet: PacketView,
    layout: Option<ShredLayout>,
    found: Option<BlockLocation>,
) -> Option<(Seq<u8>, Option<BlockLocation>)> {
    match layout {
        None => None,
        Some(layout) => if layout.nonce is Some && found is None {
            None
        } else {
            Some(
                (
                    packet.bytes->0.take(layout.size as int),
                    if layout.nonce is Some {
                        found
                    } else {
                        None
                    },
                ),
            )
        },
    }
}

/// Whether the shred in a packet is lost because no location was found for it.
pub open spec fn misplaced(
    packet: PacketView,
    layout: Option<ShredLayout>,
    found: Option<BlockLocation>,
) -> bool {
    nonce_in(packet, layout) is Some && found is None
}

/// The counters, with `lost` more shreds lost.
pub open spec fn with_lost(stats: ShredSigVerifyStats, lost: nat) -> ShredSigVerifyStats {
    ShredSigVerifyStats {
        num_unknown_block_location: (stats.num_unknown_block_location + lost) as usize,
        ..stats
    }
}

/// What is passed on of a packet: a shred and a location.
pub open spec fn extracted(result: Option<(Bytes, Option<BlockLocation>)>) -> Option<
    (Seq<u8>, Option<BlockLocation>),
> {
    match result {
        Some((shred, location)) => Some((buffer_bytes(shred), location)),
        None => None,
    }
}

/// Takes the shred out of a packet, given the location that was found for it. A buffer that can be
/// shared is not copied; the contract speaks of the bytes alone, and leaves that open.
pub fn place_shred(
    batch: &PacketBatch,
    index: usize,
    layout: Option<ShredLayout>,
    found: Option<BlockLocation>,
    stats: &mut ShredSigVerifyStats,
) -> (result: Option<(Bytes, Option<BlockLocation>)>)
    requires
        index < batch_packets(*batch).len(),
        layout_fits(batch_packets(*batch)[index as int], layout),
        old(stats).num_unknown_block_location < usize::MAX,
    ensures
        extracted(result) == placed(batch_packets(*batch)[index as int], layout, found),
        *final(stats) == with_lost(
            *old(stats),
            if misplaced(batch_packets(*batch)[index as int], layout, found) {
                1
            } else {
                0
            },
        ),
        result matches Some((shred, _)) ==> {
            &&& layout matches Some(layout) && buffer_bytes(shred).len() == layout.size
            &&& forall|j: int|
                0 <= j < buffer_bytes(shred).len() ==> #[trigger] buffer_bytes(shred)[j]
                    == batch_packets(*batch)[index as int].bytes->0[j]
        },
{
    let ghost packet = batch_packets(*batch)[index as int];
    let layout = match layout {
        Some(layout) => layout,
        None => return None,
    };
    let location = match layout.nonce {
        None => None,
        Some(_) => match found {
            Some(location) => Some(location),
            None => {
                stats.num_unknown_block_location += 1;
                return None;
            },
        },
    };
    let shred = match packet_buffer(batch, index) {
        Some(buffer) => buffer_prefix(buffer, layout.size),
        None => match packet_data(batch, index) {
            Some(data) => buffer_copied_from(vstd::slice::slice_subrange(data, 0, layout.size)),
            None => return None,
        },
    };
    assert(buffer_bytes(shred) =~= packet.bytes->0.take(layout.size as int));
    Some((shred, location))
}

/// What the lookup can have found for a packet: one of its answers for the nonce in the packet.
/// For packets without one it is not asked.
pub open spec fn answered<F: Fn(u32) -> Option<BlockLocation>>(
    lookup: F,
    packet: PacketView,
    layout: Option<ShredLayout>,
    found: Option<BlockLocation>,
) -> bool {
    match nonce_in(packet, layout) {
        Some(nonce) => call_ensures(lookup, (nonce,), found),
        None => found is None,
    }
}

/// Asks the lookup for the location of the shred in a packet, if it came by repair.
fn find_location<F: Fn(u32) -> Option<BlockLocation>>(
    batch: &PacketBatch,
    index: usize,
    layout: Option<ShredLayout>,
    lookup: &F,
) -> (found: Option<BlockLocation>)
    requires
        index < batch_packets(*batch).len(),
        nonce_in(batch_packets(*batch)[index as int], layout) matches Some(nonce) ==> call_requires(
            *lookup,
            (nonce,),
        ),
    ensures
        answered(*lookup, batch_packets(*batch)[index as int], layout, found),
{
    if packet_discard(batch, index) {
        return None;
    }
    match layout {
        Some(ShredLayout { size: _, nonce: Some(nonce) }) => lookup(nonce),
        _ => None,
    }
}

/// Takes the shred out of a packet, and looks up where it is stored if it came by repair. A shred
/// that came by repair and has no location is lost.
pub fn extract_shred_and_location<F: Fn(u32) -> Option<BlockLocation>>(
    batch: &PacketBatch,
    index: usize,
    layout: Option<ShredLayout>,
    lookup: &F,
    stats: &mut ShredSigVerifyStats,
) -> (result: Option<(Bytes, Option<BlockLocation>)>)
    requires
        index < batch_packets(*batch).len(),
        layout_fits(batch_packets(*batch)[index as int], layout),
        nonce_in(batch_packets(*batch)[index as int], layout) matches Some(nonce) ==> call_requires(
            *lookup,
            (nonce,),
        ),
        old(stats).num_unknown_block_location < usize::MAX,
    ensures
        exists|found: Option<BlockLocation>|
            {
                &&& #[trigger] answered(
                    *lookup,
                    batch_packets(*batch)[index as int],
                    layout,
                    found,
                )
                &&& extracted(result) == placed(batch_packets(*batch)[index as int], layout, found)
                &&& *final(stats) == with_lost(
                    *old(stats),
                    if misplaced(batch_packets(*batch)[index as int], layout, found) {
                        1
                    } else {
                        0
                    },
                )
            },
        result matches Some((shred, _)) ==> {
            &&& layout matches Some(layout) && buffer_bytes(shred).len() == layout.size
            &&& forall|j: int|
                0 <= j < buffer_bytes(shred).len() ==> #[trigger] buffer_bytes(shred)[j]
                    == batch_packets(*batch)[index as int].bytes->0[j]
        },
{
    let found = find_location(batch, index, layout, lookup);
    place_shred(batch, index, layout, found, stats)
}

/// A shred that is passed on: its bytes, whether it came by repair, and where it is stored.
pub type PassedView = (Seq<u8>, bool, BlockLocation);

/// What is passed on of a packet.
pub open spec fn packet_passed(
    packet: PacketView,
    layout: Option<ShredLayout>,
    found: Option<BlockLocation>,
) -> Option<PassedView> {
    if packet.discard {
        None
    } else {
        match placed(packet, layout, found) {
            None => None,
            Some((shred, Some(location))) => Some((shred, true, location)),
            Some((shred, None)) => Some((shred, false, BlockLocation::Original)),
        }
    }
}

/// What is passed on of the first `n` packets of a batch, in order.
pub open spec fn batch_passed(
    packets: Seq<PacketView>,
    layouts: Seq<Option<ShredLayout>>,
    found: Seq<Option<BlockLocation>>,
    n: int,
) -> Seq<PassedView>
    decreases n,
{
    if n <= 0 {
        Seq::empty()
    } else {
        match packet_passed(packets[n - 1], layouts[n - 1], found[n - 1]) {
            Some(passed) => batch_passed(packets, layouts, found, n - 1).push(passed),
            None => batch_passed(packets, layouts, found, n - 1),
        }
    }
}

/// What is passed on of the first `n` batches, in order.
pub open spec fn all_passed(
    batches: Seq<Seq<PacketView>>,
    layouts: Seq<Seq<Option<ShredLayout>>>,
    found: Seq<Seq<Option<BlockLocation>>>,
    n: int,
) -> Seq<PassedView>
    decreases n,
{
    if n <= 0 {
        Seq::empty()
    } else {
        all_passed(batches, layouts, found, n - 1) + batch_passed(
            batches[n - 1],
            layouts[n - 1],
            found[n - 1],
            batches[n - 1].len() as int,
        )
    }
}

/// Of the shreds that are passed on, those that are retransmitted: those that did not come by
/// repair.
pub open spec fn retransmitted(passed: Seq<PassedView>) -> Seq<Seq<u8>>
    decreases passed.len(),
{
    if passed.len() == 0 {
        Seq::empty()
    } else if passed.last().1 {
        retransmitted(passed.drop_last())
    } else {
        retransmitted(passed.drop_last()).push(passed.last().0)
    }
}

/// How many shreds of a batch are lost.
pub open spec fn batch_lost(
    packets: Seq<PacketView>,
    layouts: Seq<Option<ShredLayout>>,
    found: Seq<Option<BlockLocation>>,
) -> nat {
    count_to(packets.len(), |i: int| misplaced(packets[i], layouts[i], found[i]))
}

/// How many shreds of the first `n` batches are lost.
pub open spec fn all_lost(
    batches: Seq<Seq<PacketView>>,
    layouts: Seq<Seq<Option<ShredLayout>>>,
    found: Seq<Seq<Option<BlockLocation>>>,
    n: int,
) -> nat
    decreases n,
{
    if n <= 0 {
        0
    } else {
        all_lost(batches, layouts, found, n - 1) + batch_lost(
            batches[n - 1],
            layouts[n - 1],
            found[n - 1],
        )
    }
}

/// The bytes of several buffers.
pub open spec fn shred_views(shreds: Seq<Bytes>) -> Seq<Seq<u8>> {
    shreds.map_values(|shred: Bytes| buffer_bytes(shred))
}

/// The shreds that are passed on.
pub open spec fn passed_views(passed: Seq<(Bytes, bool, BlockLocation)>) -> Seq<PassedView> {
    passed.map_values(
        |entry: (Bytes, bool, BlockLocation)| (buffer_bytes(entry.0), entry.1, entry.2),
    )
}

/// Every layout is one that its packet can have.
pub open spec fn layouts_fit(
    packets: Seq<PacketView>,
    layouts: Seq<Option<ShredLayout>>,
) -> bool {
    forall|i: int| 0 <= i < packets.len() ==> layout_fits(packets[i], #[trigger] layouts[i])
}

/// Every layout is one that its packet can have, over all batches.
pub open spec fn all_layouts_fit(
    batches: Seq<Seq<PacketView>>,
    layouts: Seq<Seq<Option<ShredLayout>>>,
) -> bool {
    &&& same_shape(batches, layouts)
    &&& forall|b: int| 0 <= b < batches.len() ==> layouts_fit(batches[b], #[trigger] layouts[b])
}

proof fn lemma_retransmitted_concat(left: Seq<PassedView>, right: Seq<PassedView>)
    ensures
        retransmitted(left + right) == retransmitted(left) + retransmitted(right),
    decreases right.len(),
{
    if right.len() == 0 {
        assert(left + right =~= left);
        assert(retransmitted(left) + retransmitted(right) =~= retransmitted(left));
    } else {
        assert((left + right).drop_last() =~= left + right.drop_last());
        lemma_retransmitted_concat(left, right.drop_last());
        assert(retransmitted(left + right) =~= retransmitted(left) + retransmitted(right));
    }
}

proof fn lemma_retransmitted_push(passed: Seq<PassedView>, entry: PassedView)
    ensures
        retransmitted(passed.push(entry)) == if entry.1 {
            retransmitted(passed)
        } else {
            retransmitted(passed).push(entry.0)
        },
{
    assert(passed.push(entry).drop_last() =~= passed);
}

proof fn lemma_retransmitted_len(passed: Seq<PassedView>)
    ensures
        retransmitted(passed).len() <= passed.len(),
    decreases passed.len(),
{
    if passed.len() > 0 {
        lemma_retransmitted_len(passed.drop_last());
    }
}

proof fn lemma_batch_passed_len(
    packets: Seq<PacketView>,
    layouts: Seq<Option<ShredLayout>>,
    found: Seq<Option<BlockLocation>>,
    n: int,
)
    requires
        0 <= n,
    ensures
        batch_passed(packets, layouts, found, n).len() <= n,
    decreases n,
{
    if n > 0 {
        lemma_batch_passed_len(packets, layouts, found, n - 1);
    }
}

/// No more shreds are passed on or lost than there are packets.
proof fn lemma_all_passed_len(
    batches: Seq<Seq<PacketView>>,
    layouts: Seq<Seq<Option<ShredLayout>>>,
    found: Seq<Seq<Option<BlockLocation>>>,
    n: int,
)
    requires
        0 <= n <= batches.len(),
    ensures
        all_passed(batches, layouts, found, n).len() <= total_packets(batches.take(n)),
        all_lost(batches, layouts, found, n) <= total_packets(batches.take(n)),
    decreases n,
{
    if n > 0 {
        lemma_all_passed_len(batches, layouts, found, n - 1);
        let (packets, rows, answers) = (batches[n - 1], layouts[n - 1], found[n - 1]);
        lemma_batch_passed_len(packets, rows, answers, packets.len() as int);
        lemma_count_bound(packets.len(), |i: int| misplaced(packets[i], rows[i], answers[i]));
        assert(batches.take(n).drop_last() =~= batches.take(n - 1));
    }
}

/// Passes on the shreds of one batch, given the locations that were found for them.
fn place_batch(
    batch: &PacketBatch,
    layouts: &Vec<Option<ShredLayout>>,
    found: &Vec<Option<BlockLocation>>,
    retransmit: &mut Vec<Bytes>,
    verified: &mut Vec<(Bytes, bool, BlockLocation)>,
    stats: &mut ShredSigVerifyStats,
)
    requires
        layouts@.len() == batch_packets(*batch).len(),
        found@.len() == batch_packets(*batch).len(),
        layouts_fit(batch_packets(*batch), layouts@),
        old(stats).num_unknown_block_location + batch_packets(*batch).len() <= usize::MAX,
    ensures
        ({
            let packets = batch_packets(*batch);
            let passed = batch_passed(packets, layouts@, found@, packets.len() as int);
            &&& passed_views(final(verified)@) == passed_views(old(verified)@) + passed
            &&& shred_views(final(retransmit)@) == shred_views(old(retransmit)@) + retransmitted(
                passed,
            )
            &&& *final(stats) == with_lost(*old(stats), batch_lost(packets, layouts@, found@))
        }),
{
    let ghost packets = batch_packets(*batch);
    let ghost verified0 = passed_views(verified@);
    let ghost retransmit0 = shred_views(retransmit@);
    let ghost stats0 = *stats;
    let ghost lost = |i: int| misplaced(packets[i], layouts@[i], found@[i]);
    let len: usize = batch_len(batch);
    assert(verified0 + Seq::<PassedView>::empty() =~= verified0);
    assert(retransmit0 + Seq::<Seq<u8>>::empty() =~= retransmit0);
    for index in 0..len
        invariant
            len == packets.len(),
            packets == batch_packets(*batch),
            layouts@.len() == len,
            found@.len() == len,
            layouts_fit(packets, layouts@),
            lost == (|i: int| misplaced(packets[i], layouts@[i], found@[i])),
            stats0.num_unknown_block_location + len <= usize::MAX,
            passed_views(verified@) == verified0 + batch_passed(
                packets,
                layouts@,
                found@,
                index as int,
            ),
            shred_views(retransmit@) == retransmit0 + retransmitted(
                batch_passed(packets, layouts@, found@, index as int),
            ),
            *stats == with_lost(stats0, count_to(index as nat, lost)),
    {
        let ghost i = index as int;
        let ghost before = batch_passed(packets, layouts@, found@, i);
        proof {
            lemma_count_step(index as nat, lost);
            assert(layout_fits(packets[i], layouts@[i]));
        }
        if !packet_discard(batch, index) {
            if let Some((shred, location)) = place_shred(
                batch,
                index,
                layouts[index],
                found[index],
                stats,
            ) {
                let ghost verified1 = verified@;
                let ghost retransmit1 = retransmit@;
                if let Some(location) = location {
                    proof {
                        lemma_retransmitted_push(before, (buffer_bytes(shred), true, location));
                    }
                    verified.push((shred, true, location));
                } else {
                    proof {
                        lemma_retransmitted_push(
                            before,
                            (buffer_bytes(shred), false, BlockLocation::Original),
                        );
                    }
                    retransmit.push(buffer_handle(&shred));
                    assert(shred_views(retransmit@) =~= shred_views(retransmit1).push(
                        buffer_bytes(shred),
                    ));
                    verified.push((shred, false, BlockLocation::Original));
                }
                assert(passed_views(verified@) =~= passed_views(verified1).push(
                    passed_views(verified@).last(),
                ));
            }
        }
        proof {
            let after = batch_passed(packets, layouts@, found@, i + 1);
            assert(passed_views(verified@) =~= verified0 + after);
            assert(shred_views(retransmit@) =~= retransmit0 + retransmitted(after));
        }
    }
}

/// The shreds that are passed on to the retransmit stage, and the verified shreds that are passed
/// on to be stored: whether each came by repair, and where it is stored.
pub struct PassedShreds {
    /// To be retransmitted.
    pub retransmit: Vec<Bytes>,
    /// To be stored.
    pub verified: Vec<(Bytes, bool, BlockLocation)>,
}

/// The counters after shreds were passed on.
pub open spec fn passed_counted(
    stats: ShredSigVerifyStats,
    lost: nat,
    retransmit: nat,
) -> ShredSigVerifyStats {
    ShredSigVerifyStats {
        num_unknown_block_location: (stats.num_unknown_block_location + lost) as usize,
        num_retransmit_shreds: (stats.num_retransmit_shreds + retransmit) as usize,
        ..stats
    }
}

/// The shreds of `packets` packets can be counted without overflow.
pub open spec fn can_pass(stats: ShredSigVerifyStats, packets: nat) -> bool {
    &&& stats.num_unknown_block_location + packets <= usize::MAX
    &&& stats.num_retransmit_shreds + packets <= usize::MAX
}

/// Passes on the shreds of all packets that are kept, given the locations that were found for
/// them. Shreds that came by repair are not retransmitted.
pub fn place_shreds(
    batches: &[PacketBatch],
    layouts: &[Vec<Option<ShredLayout>>],
    found: &[Vec<Option<BlockLocation>>],
    stats: &mut ShredSigVerifyStats,
) -> (passed: PassedShreds)
    requires
        all_layouts_fit(batch_views(batches@), inner_views(layouts@)),
        same_shape(batch_views(batches@), inner_views(found@)),
        can_pass(*old(stats), total_packets(batch_views(batches@))),
    ensures
        ({
            let views = batch_views(batches@);
            let rows = inner_views(layouts@);
            let answers = inner_views(found@);
            let n = batches@.len() as int;
            &&& passed_views(passed.verified@) == all_passed(views, rows, answers, n)
            &&& shred_views(passed.retransmit@) == retransmitted(
                all_passed(views, rows, answers, n),
            )
            &&& *final(stats) == passed_counted(
                *old(stats),
                all_lost(views, rows, answers, n),
                passed.retransmit@.len(),
            )
        }),
{
    let ghost views = batch_views(batches@);
    let ghost rows = inner_views(layouts@);
    let ghost answers = inner_views(found@);
    let ghost stats0 = *stats;
    let mut retransmit: Vec<Bytes> = Vec::new();
    let mut verified: Vec<(Bytes, bool, BlockLocation)> = Vec::new();
    for index in 0..batches.len()
        invariant
            views == batch_views(batches@),
            rows == inner_views(layouts@),
            answers == inner_views(found@),
            all_layouts_fit(views, rows),
            same_shape(views, answers),
            can_pass(stats0, total_packets(views)),
            passed_views(verified@) == all_passed(views, rows, answers, index as int),
            shred_views(retransmit@) == retransmitted(
                all_passed(views, rows, answers, index as int),
            ),
            *stats == with_lost(stats0, all_lost(views, rows, answers, index as int)),
    {
        let ghost n = index as int;
        proof {
            assert(views[n] == batch_packets(batches@[n]));
            assert(rows[n] == layouts@[n]@);
            assert(answers[n] == found@[n]@);
            assert(layouts_fit(views[n], rows[n]));
            lemma_all_passed_len(views, rows, answers, n);
            lemma_total_packets_prefix(views, n + 1);
            assert(views.take(n + 1).drop_last() =~= views.take(n));
            lemma_retransmitted_concat(
                all_passed(views, rows, answers, n),
                batch_passed(views[n], rows[n], answers[n], views[n].len() as int),
            );
            let (packets, row, answer) = (views[n], rows[n], answers[n]);
            lemma_count_bound(packets.len(), |i: int| misplaced(packets[i], row[i], answer[i]));
        }
        place_batch(
            &batches[index],
            &layouts[index],
            &found[index],
            &mut retransmit,
            &mut verified,
            stats,
        );
    }
    proof {
        let n = batches@.len() as int;
        lemma_all_passed_len(views, rows, answers, n);
        assert(views.take(n) =~= views);
        lemma_retransmitted_len(all_passed(views, rows, answers, n));
        assert(shred_views(retransmit@).len() == retransmit@.len());
    }
    stats.num_retransmit_shreds += retransmit.len();
    PassedShreds { retransmit, verified }
}

/// What the lookup can have found for the packets of all batches.
pub open spec fn all_answered<F: Fn(u32) -> Option<BlockLocation>>(
    lookup: F,
    batches: Seq<Seq<PacketView>>,
    layouts: Seq<Seq<Option<ShredLayout>>>,
    found: Seq<Seq<Option<BlockLocation>>>,
) -> bool {
    &&& same_shape(batches, found)
    &&& forall|b: int, i: int|
        0 <= b < batches.len() && 0 <= i < batches[b].len() ==> answered(
            lookup,
            batches[b][i],
            layouts[b][i],
            #[trigger] found[b][i],
        )
}

/// The lookup takes the nonces of all packets.
pub open spec fn can_look_up<F: Fn(u32) -> Option<BlockLocation>>(
    lookup: F,
    batches: Seq<Seq<PacketView>>,
    layouts: Seq<Seq<Option<ShredLayout>>>,
) -> bool {
    forall|b: int, i: int|
        0 <= b < batches.len() && 0 <= i < batches[b].len() && nonce_in(
            batches[b][i],
            #[trigger] layouts[b][i],
        ) is Some ==> call_requires(lookup, (nonce_in(batches[b][i], layouts[b][i])->0,))
}

/// Asks the lookup for the locations of the shreds in a batch.
fn find_batch_locations<F: Fn(u32) -> Option<BlockLocation>>(
    batch: &PacketBatch,
    layouts: &Vec<Option<ShredLayout>>,
    lookup: &F,
) -> (found: Vec<Option<BlockLocation>>)
    requires
        layouts@.len() == batch_packets(*batch).len(),
        forall|i: int|
            0 <= i < layouts@.len() && nonce_in(
                batch_packets(*batch)[i],
                #[trigger] layouts@[i],
            ) is Some ==> call_requires(
                *lookup,
                (nonce_in(batch_packets(*batch)[i], layouts@[i])->0,),
            ),
    ensures
        found@.len() == layouts@.len(),
        forall|i: int|
            0 <= i < found@.len() ==> answered(
                *lookup,
                batch_packets(*batch)[i],
                layouts@[i],
                #[trigger] found@[i],
            ),
{
    let mut found: Vec<Option<BlockLocation>> = Vec::new();
    for index in 0..layouts.len()
        invariant
            layouts@.len() == batch_packets(*batch).len(),
            forall|i: int|
                0 <= i < layouts@.len() && nonce_in(
                    batch_packets(*batch)[i],
                    #[trigger] layouts@[i],
                ) is Some ==> call_requires(
                    *lookup,
                    (nonce_in(batch_packets(*batch)[i], layouts@[i])->0,),
                ),
            found@.len() == index,
            forall|i: int|
                0 <= i < index ==> answered(
                    *lookup,
                    batch_packets(*batch)[i],
                    layouts@[i],
                    #[trigger] found@[i],
                ),
    {
        let location = find_location(batch, index, layouts[index], lookup);
        found.push(location);
    }
    found
}

/// Asks the lookup for the locations of all shreds that came by repair, in order.
pub fn find_locations<F: Fn(u32) -> Option<BlockLocation>>(
    batches: &[PacketBatch],
    layouts: &[Vec<Option<ShredLayout>>],
    lookup: &F,
) -> (found: Vec<Vec<Option<BlockLocation>>>)
    requires
        same_shape(batch_views(batches@), inner_views(layouts@)),
        can_look_up(*lookup, batch_views(batches@), inner_views(layouts@)),
    ensures
        all_answered(
            *lookup,
            batch_views(batches@),
            inner_views(layouts@),
            inner_views(found@),
        ),
{
    let ghost views = batch_views(batches@);
    let ghost rows = inner_views(layouts@);
    let mut found: Vec<Vec<Option<BlockLocation>>> = Vec::new();
    for index in 0..batches.len()
        invariant
            views == batch_views(batches@),
            rows == inner_views(layouts@),
            same_shape(views, rows),
            can_look_up(*lookup, views, rows),
            found@.len() == index,
            forall|b: int| 0 <= b < index ==> (#[trigger] found@[b])@.len() == views[b].len(),
            forall|b: int, i: int|
                0 <= b < index && 0 <= i < views[b].len() ==> answered(
                    *lookup,
                    views[b][i],
                    rows[b][i],
                    #[trigger] found@[b]@[i],
                ),
    {
        assert(views[index as int] == batch_packets(batches@[index as int]));
        assert(rows[index as int] == layouts@[index as int]@);
        assert forall|i: int|
            0 <= i < rows[index as int].len() && nonce_in(
                views[index as int][i],
                #[trigger] layouts@[index as int]@[i],
            ) is Some implies call_requires(
            *lookup,
            (nonce_in(views[index as int][i], layouts@[index as int]@[i])->0,),
        ) by {
            assert(nonce_in(views[index as int][i], rows[index as int][i]) is Some);
        }
        let row = find_batch_locations(&batches[index], &layouts[index], lookup);
        found.push(row);
    }
    found
}

/// Passes on the shreds of all packets that are kept, and looks up where those are stored that
/// came by repair.
pub fn pass_shreds<F: Fn(u32) -> Option<BlockLocation>>(
    batches: &[PacketBatch],
    layouts: &[Vec<Option<ShredLayout>>],
    lookup: &F,
    stats: &mut ShredSigVerifyStats,
) -> (passed: PassedShreds)
    requires
        all_layouts_fit(batch_views(batches@), inner_views(layouts@)),
        can_look_up(*lookup, batch_views(batches@), inner_views(layouts@)),
        can_pass(*old(stats), total_packets(batch_views(batches@))),
    ensures
        exists|answers: Seq<Seq<Option<BlockLocation>>>|
            #![trigger all_answered(
                *lookup,
                batch_views(batches@),
                inner_views(layouts@),
                answers,
            )]
            {
                let views = batch_views(batches@);
                let rows = inner_views(layouts@);
                let n = batches@.len() as int;
                &&& all_answered(*lookup, views, rows, answers)
                &&& passed_views(passed.verified@) == all_passed(views, rows, answers, n)
                &&& shred_views(passed.retransmit@) == retransmitted(
                    all_passed(views, rows, answers, n),
                )
                &&& *final(stats) == passed_counted(
                    *old(stats),
                    all_lost(views, rows, answers, n),
                    passed.retransmit@.len(),
                )
            },
{
    let found = find_locations(batches, layouts, lookup);
    place_shreds(batches, layouts, found.as_slice(), stats)
}

/// What is passed on of a batch comes from its packets, and all that they have is passed on.
proof fn lemma_batch_passed_members(
    packets: Seq<PacketView>,
    layouts: Seq<Option<ShredLayout>>,
    found: Seq<Option<BlockLocation>>,
    n: int,
)
    requires
        0 <= n <= packets.len(),
    ensures
        forall|k: int|
            0 <= k < batch_passed(packets, layouts, found, n).len() ==> exists|i: int|
                0 <= i < n && #[trigger] packet_passed(packets[i], layouts[i], found[i]) == Some(
                    #[trigger] batch_passed(packets, layouts, found, n)[k],
                ),
        forall|i: int|
            0 <= i < n && packet_passed(#[trigger] packets[i], layouts[i], found[i]) is Some
                ==> batch_passed(packets, layouts, found, n).contains(
                packet_passed(packets[i], layouts[i], found[i])->0,
            ),
    decreases n,
{
    if n > 0 {
        lemma_batch_passed_members(packets, layouts, found, n - 1);
        let before = batch_passed(packets, layouts, found, n - 1);
        let after = batch_passed(packets, layouts, found, n);
        assert forall|k: int| 0 <= k < after.len() implies exists|i: int|
            0 <= i < n && #[trigger] packet_passed(packets[i], layouts[i], found[i]) == Some(
                #[trigger] after[k],
            ) by {
            if k < before.len() {
                assert(after[k] == before[k]);
                let i = choose|i: int|
                    0 <= i < n - 1 && #[trigger] packet_passed(packets[i], layouts[i], found[i])
                        == Some(before[k]);
                assert(packet_passed(packets[i], layouts[i], found[i]) == Some(after[k]));
            } else {
                assert(packet_passed(packets[n - 1], layouts[n - 1], found[n - 1]) == Some(
                    after[k],
                ));
            }
        }
        assert forall|i: int|
            0 <= i < n && packet_passed(
                #[trigger] packets[i],
                layouts[i],
                found[i],
            ) is Some implies after.contains(
            packet_passed(packets[i], layouts[i], found[i])->0,
        ) by {
            let passed = packet_passed(packets[i], layouts[i], found[i])->0;
            if i == n - 1 {
                assert(after[before.len() as int] == passed);
            } else {
                assert(before.contains(passed));
                let k = choose|k: int| 0 <= k < before.len() && before[k] == passed;
                assert(after[k] == passed);
            }
        }
    }
}

/// Only packets that are kept have their shreds passed on: each shred that is passed on is that of
/// a packet which is not marked for discard.
pub proof fn passed_shreds_come_from_kept_packets(
    batches: Seq<Seq<PacketView>>,
    layouts: Seq<Seq<Option<ShredLayout>>>,
    found: Seq<Seq<Option<BlockLocation>>>,
    n: int,
    k: int,
)
    requires
        0 <= n <= batches.len(),
        0 <= k < all_passed(batches, layouts, found, n).len(),
    ensures
        exists|b: int, i: int|
            {
                &&& 0 <= b < n
                &&& 0 <= i < batches[b].len()
                &&& !batches[b][i].discard
                &&& #[trigger] packet_passed(batches[b][i], layouts[b][i], found[b][i]) == Some(
                    all_passed(batches, layouts, found, n)[k],
                )
            },
    decreases n,
{
    let before = all_passed(batches, layouts, found, n - 1);
    let passed = all_passed(batches, layouts, found, n)[k];
    if k < before.len() {
        passed_shreds_come_from_kept_packets(batches, layouts, found, n - 1, k);
        let (b, i) = choose|b: int, i: int|
            {
                &&& 0 <= b < n - 1
                &&& 0 <= i < batches[b].len()
                &&& !batches[b][i].discard
                &&& #[trigger] packet_passed(batches[b][i], layouts[b][i], found[b][i]) == Some(
                    before[k],
                )
            };
        assert(packet_passed(batches[b][i], layouts[b][i], found[b][i]) == Some(passed));
    } else {
        let b = n - 1;
        let len = batches[b].len() as int;
        let row = batch_passed(batches[b], layouts[b], found[b], len);
        lemma_batch_passed_members(batches[b], layouts[b], found[b], len);
        assert(row[k - before.len()] == passed);
        let i = choose|i: int|
            0 <= i < len && #[trigger] packet_passed(batches[b][i], layouts[b][i], found[b][i])
                == Some(row[k - before.len()]);
        assert(packet_passed(batches[b][i], layouts[b][i], found[b][i]) == Some(passed));
    }
}

/// No shred gets lost on the way: what a packet has to pass on is passed on.
pub proof fn shreds_of_kept_packets_are_passed(
    batches: Seq<Seq<PacketView>>,
    layouts: Seq<Seq<Option<ShredLayout>>>,
    found: Seq<Seq<Option<BlockLocation>>>,
    n: int,
    b: int,
    i: int,
)
    requires
        0 <= b < n <= batches.len(),
        0 <= i < batches[b].len(),
        packet_passed(batches[b][i], layouts[b][i], found[b][i]) is Some,
    ensures
        all_passed(batches, layouts, found, n).contains(
            packet_passed(batches[b][i], layouts[b][i], found[b][i])->0,
        ),
    decreases n,
{
    let passed = packet_passed(batches[b][i], layouts[b][i], found[b][i])->0;
    let before = all_passed(batches, layouts, found, n - 1);
    let after = all_passed(batches, layouts, found, n);
    if b < n - 1 {
        shreds_of_kept_packets_are_passed(batches, layouts, found, n - 1, b, i);
        let k = choose|k: int| 0 <= k < before.len() && before[k] == passed;
        assert(after[k] == passed);
    } else {
        let len = batches[b].len() as int;
        let row = batch_passed(batches[b], layouts[b], found[b], len);
        lemma_batch_passed_members(batches[b], layouts[b], found[b], len);
        assert(row.contains(passed));
        let k = choose|k: int| 0 <= k < row.len() && row[k] == passed;
        assert(after[before.len() + k] == passed);
    }
}

/// A shred is retransmitted if and only if it is passed on as one that did not come by repair.
pub proof fn repaired_shreds_are_not_retransmitted(passed: Seq<PassedView>, shred: Seq<u8>)
    ensures
        retransmitted(passed).contains(shred) <==> exists|k: int|
            0 <= k < passed.len() && (#[trigger] passed[k]).0 == shred && !passed[k].1,
    decreases passed.len(),
{
    if passed.len() > 0 {
        let shorter = passed.drop_last();
        let last = passed.last();
        repaired_shreds_are_not_retransmitted(shorter, shred);
        let before = retransmitted(shorter);
        let after = retransmitted(passed);
        if after.contains(shred) {
            let j = choose|j: int| 0 <= j < after.len() && after[j] == shred;
            if j < before.len() {
                assert(before[j] == shred);
                assert(before.contains(shred));
                let k = choose|k: int|
                    0 <= k < shorter.len() && (#[trigger] shorter[k]).0 == shred && !shorter[k].1;
                assert(passed[k] == shorter[k]);
            } else {
                assert(passed[passed.len() - 1] == last);
            }
        }
        if exists|k: int|
            0 <= k < passed.len() && (#[trigger] passed[k]).0 == shred && !passed[k].1 {
            let k = choose|k: int|
                0 <= k < passed.len() && (#[trigger] passed[k]).0 == shred && !passed[k].1;
            if k < shorter.len() {
                assert(shorter[k] == passed[k]);
                assert(before.contains(shred));
                let j = choose|j: int| 0 <= j < before.len() && before[j] == shred;
                assert(after[j] == shred);
            } else {
                assert(after[before.len() as int] == shred);
            }
        }
    }
}

/// Shreds that did not come by repair are stored with the block that came through the turbine
/// tree.
pub proof fn turbine_shreds_are_stored_as_original(
    batches: Seq<Seq<PacketView>>,
    layouts: Seq<Seq<Option<ShredLayout>>>,
    found: Seq<Seq<Option<BlockLocation>>>,
    n: int,
    k: int,
)
    requires
        0 <= n <= batches.len(),
        0 <= k < all_passed(batches, layouts, found, n).len(),
        !all_passed(batches, layouts, found, n)[k].1,
    ensures
        all_passed(batches, layouts, found, n)[k].2 == BlockLocation::Original,
{
    passed_shreds_come_from_kept_packets(batches, layouts, found, n, k);
}

/// Whatever kind of buffer a packet has, and whether or not it came by repair, the shred that is
/// taken out of it has the size that the layout tells and agrees with the packet at every position.
/// It comes with a location if and only if it came by repair, and with the one that was found. No
/// shred is taken out only where there is no layout, or where a repaired shred has no location.
pub proof fn placed_shreds_are_the_start_of_their_packets(
    packet: PacketView,
    layout: Option<ShredLayout>,
    found: Option<BlockLocation>,
)
    requires
        layout_fits(packet, layout),
    ensures
        placed(packet, layout, found) matches Some((shred, location)) ==> {
            &&& layout matches Some(layout) && {
                &&& shred.len() == layout.size
                &&& forall|j: int|
                    0 <= j < layout.size ==> #[trigger] shred[j] == packet.bytes->0[j]
                &&& layout.nonce is Some ==> location is Some && location == found
                &&& layout.nonce is None ==> location is None
            }
        },
        placed(packet, layout, found) is None <==> match layout {
            None => true,
            Some(layout) => layout.nonce is Some && found is None,
        },
{
}

/// Neither the kind of buffer nor a nonce nor what follows the shred makes a difference to the
/// bytes that are taken out of a packet: two packets that agree up to the size of the shred give
/// the same bytes.
pub proof fn buffers_and_trailing_bytes_do_not_count(
    left: PacketView,
    left_layout: ShredLayout,
    left_found: Option<BlockLocation>,
    right: PacketView,
    right_layout: ShredLayout,
    right_found: Option<BlockLocation>,
)
    requires
        layout_fits(left, Some(left_layout)),
        layout_fits(right, Some(right_layout)),
        left_layout.size == right_layout.size,
        forall|j: int|
            0 <= j < left_layout.size ==> #[trigger] left.bytes->0[j] == right.bytes->0[j],
        placed(left, Some(left_layout), left_found) is Some,
        placed(right, Some(right_layout), right_found) is Some,
    ensures
        ({
            let (left_shred, _) = placed(left, Some(left_layout), left_found)->0;
            let (right_shred, _) = placed(right, Some(right_layout), right_found)->0;
            left_shred == right_shred
        }),
{
    let (left_shred, _) = placed(left, Some(left_layout), left_found)->0;
    let (right_shred, _) = placed(right, Some(right_layout), right_found)->0;
    assert(left_shred =~= right_shred);
}

/// A shred is lost if and only if its packet is kept and carries a nonce for which no location was
/// found. The lookup is asked for packets that are kept and carry a nonce, and for their nonce.
pub proof fn lookups_are_asked_for_kept_repairs<F: Fn(u32) -> Option<BlockLocation>>(
    lookup: F,
    packet: PacketView,
    layout: Option<ShredLayout>,
    found: Option<BlockLocation>,
)
    ensures
        ({
            let kept_repair = !packet.discard && layout is Some && layout->0.nonce is Some;
            &&& misplaced(packet, layout, found) <==> kept_repair && found is None
            &&& nonce_in(packet, layout) == if kept_repair {
                layout->0.nonce
            } else {
                None
            }
            &&& answered(lookup, packet, layout, found) <==> if kept_repair {
                call_ensures(lookup, (layout->0.nonce->0,), found)
            } else {
                found is None
            }
        }),
{
}

/// Whether a packet has a shred to pass on: it is kept and holds one, and if that came by repair, a
/// location was found for it.
pub open spec fn has_shred_to_pass(
    packet: PacketView,
    layout: Option<ShredLayout>,
    found: Option<BlockLocation>,
) -> bool {
    !packet.discard && (layout matches Some(layout) && (layout.nonce is None || found is Some))
}

/// What is passed on is the shred of a packet: its bytes are the start of the packet, it counts as
/// repaired if and only if the packet carries a nonce, and is then stored where it was found to
/// belong. Otherwise it is stored with the block that came through the turbine tree.
pub open spec fn is_shred_of(
    entry: PassedView,
    packet: PacketView,
    layout: ShredLayout,
    found: Option<BlockLocation>,
) -> bool {
    &&& entry.0.len() == layout.size
    &&& forall|j: int| 0 <= j < layout.size ==> #[trigger] entry.0[j] == packet.bytes->0[j]
    &&& entry.1 == (layout.nonce is Some)
    &&& entry.2 == if layout.nonce is Some {
        found->0
    } else {
        BlockLocation::Original
    }
}

/// The shreds of a batch are passed on in the order of its packets, once for each packet that has
/// one to pass on, and each as the shred of its packet.
pub proof fn shreds_of_a_batch_are_passed_in_order(
    packets: Seq<PacketView>,
    layouts: Seq<Option<ShredLayout>>,
    found: Seq<Option<BlockLocation>>,
    n: nat,
)
    requires
        n <= packets.len(),
        layouts_fit(packets, layouts),
    ensures
        ({
            let passed = batch_passed(packets, layouts, found, n as int);
            let at = positions(n, |i: int| has_shred_to_pass(packets[i], layouts[i], found[i]));
            &&& passed.len() == at.len()
            &&& forall|k: int|
                0 <= k < passed.len() ==> is_shred_of(
                    #[trigger] passed[k],
                    packets[at[k]],
                    layouts[at[k]]->0,
                    found[at[k]],
                )
        }),
    decreases n,
{
    if n > 0 {
        shreds_of_a_batch_are_passed_in_order(packets, layouts, found, (n - 1) as nat);
        let last = n - 1;
        assert(layout_fits(packets[last], layouts[last]));
        let before = batch_passed(packets, layouts, found, last);
        let passed = batch_passed(packets, layouts, found, n as int);
        let p = |i: int| has_shred_to_pass(packets[i], layouts[i], found[i]);
        assert(packet_passed(packets[last], layouts[last], found[last]) is Some == p(last));
        if p(last) {
            assert(is_shred_of(passed.last(), packets[last], layouts[last]->0, found[last]));
        }
        let at = positions(n, p);
        assert forall|k: int| 0 <= k < passed.len() implies is_shred_of(
            #[trigger] passed[k],
            packets[at[k]],
            layouts[at[k]]->0,
            found[at[k]],
        ) by {
            if k < before.len() {
                assert(passed[k] == before[k]);
            }
        }
    }
}

/// As many shreds of a batch are lost as it has packets that are kept and carry a nonce for which
/// no location was found.
pub proof fn lost_shreds_are_counted_once(
    packets: Seq<PacketView>,
    layouts: Seq<Option<ShredLayout>>,
    found: Seq<Option<BlockLocation>>,
)
    ensures
        batch_lost(packets, layouts, found) == positions(
            packets.len(),
            |i: int|
                !packets[i].discard && (layouts[i] matches Some(layout) && layout.nonce is Some)
                    && found[i] is None,
        ).len(),
{
    let p = |i: int| misplaced(packets[i], layouts[i], found[i]);
    counts_are_numbers_of_positions(packets.len(), p);
    lemma_positions_same(
        packets.len(),
        p,
        |i: int|
            !packets[i].discard && (layouts[i] matches Some(layout) && layout.nonce is Some)
                && found[i] is None,
    );
}

proof fn lemma_batch_passed_concat(
    left: Seq<PacketView>,
    left_layouts: Seq<Option<ShredLayout>>,
    left_found: Seq<Option<BlockLocation>>,
    right: Seq<PacketView>,
    right_layouts: Seq<Option<ShredLayout>>,
    right_found: Seq<Option<BlockLocation>>,
    n: int,
)
    requires
        left_layouts.len() == left.len(),
        left_found.len() == left.len(),
        right_layouts.len() == right.len(),
        right_found.len() == right.len(),
        0 <= n <= left.len() + right.len(),
    ensures
        batch_passed(left + right, left_layouts + right_layouts, left_found + right_found, n)
            == if n <= left.len() {
            batch_passed(left, left_layouts, left_found, n)
        } else {
            batch_passed(left, left_layouts, left_found, left.len() as int) + batch_passed(
                right,
                right_layouts,
                right_found,
                n - left.len(),
            )
        },
    decreases n,
{
    let packets = left + right;
    let layouts = left_layouts + right_layouts;
    let found = left_found + right_found;
    if n > 0 {
        lemma_batch_passed_concat(
            left,
            left_layouts,
            left_found,
            right,
            right_layouts,
            right_found,
            n - 1,
        );
        if n > left.len() {
            let m = n - left.len();
            let first = batch_passed(left, left_layouts, left_found, left.len() as int);
            let rest = batch_passed(right, right_layouts, right_found, m - 1);
            if m == 1 {
                assert(first + rest =~= first);
            }
            assert(batch_passed(packets, layouts, found, n - 1) == first + rest);
            assert(packets[n - 1] == right[m - 1]);
            assert(layouts[n - 1] == right_layouts[m - 1]);
            assert(found[n - 1] == right_found[m - 1]);
            assert(batch_passed(packets, layouts, found, n) =~= first + batch_passed(
                right,
                right_layouts,
                right_found,
                m,
            ));
        }
    }
}

proof fn lemma_passed_prefix(
    batches: Seq<Seq<PacketView>>,
    layouts: Seq<Seq<Option<ShredLayout>>>,
    found: Seq<Seq<Option<BlockLocation>>>,
    n: int,
)
    requires
        0 <= n < batches.len(),
        layouts.len() == batches.len(),
        found.len() == batches.len(),
    ensures
        all_passed(batches, layouts, found, n) == all_passed(
            batches.drop_last(),
            layouts.drop_last(),
            found.drop_last(),
            n,
        ),
        all_lost(batches, layouts, found, n) == all_lost(
            batches.drop_last(),
            layouts.drop_last(),
            found.drop_last(),
            n,
        ),
    decreases n,
{
    if n > 0 {
        lemma_passed_prefix(batches, layouts, found, n - 1);
    }
}

proof fn lemma_same_shape_shorter<T>(batches: Seq<Seq<PacketView>>, rows: Seq<Seq<T>>)
    requires
        same_shape(batches, rows),
        batches.len() > 0,
    ensures
        same_shape(batches.drop_last(), rows.drop_last()),
        rows.last().len() == batches.last().len(),
{
    assert forall|b: int| 0 <= b < batches.len() - 1 implies (#[trigger] rows.drop_last()[b]).len()
        == batches.drop_last()[b].len() by {
        assert(rows[b].len() == batches[b].len());
    }
}

proof fn lemma_passed_flattened(
    batches: Seq<Seq<PacketView>>,
    layouts: Seq<Seq<Option<ShredLayout>>>,
    found: Seq<Seq<Option<BlockLocation>>>,
)
    requires
        same_shape(batches, layouts),
        same_shape(batches, found),
    ensures
        layouts.flatten_alt().len() == batches.flatten_alt().len(),
        found.flatten_alt().len() == batches.flatten_alt().len(),
        all_passed(batches, layouts, found, batches.len() as int) == batch_passed(
            batches.flatten_alt(),
            layouts.flatten_alt(),
            found.flatten_alt(),
            batches.flatten_alt().len() as int,
        ),
        all_lost(batches, layouts, found, batches.len() as int) == batch_lost(
            batches.flatten_alt(),
            layouts.flatten_alt(),
            found.flatten_alt(),
        ),
    decreases batches.len(),
{
    if batches.len() > 0 {
        let n = batches.len() - 1;
        lemma_same_shape_shorter(batches, layouts);
        lemma_same_shape_shorter(batches, found);
        lemma_passed_flattened(batches.drop_last(), layouts.drop_last(), found.drop_last());
        lemma_passed_prefix(batches, layouts, found, n);
        let left = batches.drop_last().flatten_alt();
        let left_layouts = layouts.drop_last().flatten_alt();
        let left_found = found.drop_last().flatten_alt();
        let (right, right_layouts, right_found) = (batches[n], layouts[n], found[n]);
        lemma_batch_passed_concat(
            left,
            left_layouts,
            left_found,
            right,
            right_layouts,
            right_found,
            (left.len() + right.len()) as int,
        );
        let packets = left + right;
        let all_layouts = left_layouts + right_layouts;
        let all_found = left_found + right_found;
        lemma_count_concat(
            left.len(),
            right.len(),
            |i: int| misplaced(packets[i], all_layouts[i], all_found[i]),
            |i: int| misplaced(left[i], left_layouts[i], left_found[i]),
            |i: int| misplaced(right[i], right_layouts[i], right_found[i]),
        );
        let before = all_passed(batches, layouts, found, n);
        assert(before + Seq::<PassedView>::empty() =~= before);
    }
}

/// How packets are grouped into batches makes no difference: what is passed on and how many shreds
/// are lost is the same as for one batch with all of the packets.
pub proof fn grouping_of_shreds_does_not_count(
    batches: Seq<Seq<PacketView>>,
    layouts: Seq<Seq<Option<ShredLayout>>>,
    found: Seq<Seq<Option<BlockLocation>>>,
)
    requires
        same_shape(batches, layouts),
        same_shape(batches, found),
    ensures
        layouts.flatten().len() == batches.flatten().len(),
        found.flatten().len() == batches.flatten().len(),
        all_passed(batches, layouts, found, batches.len() as int) == batch_passed(
            batches.flatten(),
            layouts.flatten(),
            found.flatten(),
            batches.flatten().len() as int,
        ),
        all_lost(batches, layouts, found, batches.len() as int) == batch_lost(
            batches.flatten(),
            layouts.flatten(),
            found.flatten(),
        ),
{
    lemma_passed_flattened(batches, layouts, found);
    batches.lemma_flatten_and_flatten_alt_are_equivalent();
    layouts.lemma_flatten_and_flatten_alt_are_equivalent();
    found.lemma_flatten_and_flatten_alt_are_equivalent();
}

/// Each shred that is passed on is that of a packet which is kept.
pub proof fn passed_shreds_are_the_start_of_their_packets(
    batches: Seq<Seq<PacketView>>,
    layouts: Seq<Seq<Option<ShredLayout>>>,
    found: Seq<Seq<Option<BlockLocation>>>,
    k: int,
)
    requires
        all_layouts_fit(batches, layouts),
        0 <= k < all_passed(batches, layouts, found, batches.len() as int).len(),
    ensures
        exists|b: int, i: int|
            {
                &&& 0 <= b < batches.len()
                &&& 0 <= i < batches[b].len()
                &&& !batches[b][i].discard
                &&& #[trigger] layouts[b][i] is Some
                &&& is_shred_of(
                    all_passed(batches, layouts, found, batches.len() as int)[k],
                    batches[b][i],
                    layouts[b][i]->0,
                    found[b][i],
                )
            },
{
    let n = batches.len() as int;
    let passed = all_passed(batches, layouts, found, n)[k];
    passed_shreds_come_from_kept_packets(batches, layouts, found, n, k);
    let (b, i) = choose|b: int, i: int|
        {
            &&& 0 <= b < n
            &&& 0 <= i < batches[b].len()
            &&& !batches[b][i].discard
            &&& #[trigger] packet_passed(batches[b][i], layouts[b][i], found[b][i]) == Some(passed)
        };
    assert(layouts_fit(batches[b], layouts[b]));
    assert(layout_fits(batches[b][i], layouts[b][i]));
    assert(is_shred_of(passed, batches[b][i], layouts[b][i]->0, found[b][i]));
}

/// The shreds that are retransmitted are those that did not come by repair, each as often as it is
/// passed on, and in the same order.
pub proof fn turbine_shreds_are_retransmitted_in_order(passed: Seq<PassedView>)
    ensures
        ({
            let at = positions(passed.len(), |k: int| !passed[k].1);
            &&& retransmitted(passed).len() == at.len()
            &&& forall|j: int|
                0 <= j < at.len() ==> #[trigger] retransmitted(passed)[j] == passed[at[j]].0
        }),
    decreases passed.len(),
{
    if passed.len() > 0 {
        let shorter = passed.drop_last();
        turbine_shreds_are_retransmitted_in_order(shorter);
        let n = shorter.len();
        lemma_positions_same(n, |k: int| !shorter[k].1, |k: int| !passed[k].1);
        let before = positions(n, |k: int| !passed[k].1);
        let at = positions(passed.len(), |k: int| !passed[k].1);
        positions_have_the_property(n, |k: int| !passed[k].1);
        assert forall|j: int| 0 <= j < at.len() implies #[trigger] retransmitted(passed)[j]
            == passed[at[j]].0 by {
            if j < before.len() {
                assert(retransmitted(shorter)[j] == shorter[before[j]].0);
            }
        }
    }
}

/// What was passed on is viewed one by one.
pub proof fn passed_shreds_are_viewed_one_by_one(
    result: Option<(Bytes, Option<BlockLocation>)>,
    shreds: Seq<Bytes>,
    passed: Seq<(Bytes, bool, BlockLocation)>,
    k: int,
)
    ensures
        extracted(result) is Some <==> result is Some,
        result matches Some((shred, location)) ==> extracted(result) == Some(
            (buffer_bytes(shred), location),
        ),
        shred_views(shreds).len() == shreds.len(),
        0 <= k < shreds.len() ==> shred_views(shreds)[k] == buffer_bytes(shreds[k]),
        passed_views(passed).len() == passed.len(),
        0 <= k < passed.len() ==> {
            &&& passed_views(passed)[k].0 == buffer_bytes(passed[k].0)
            &&& passed_views(passed)[k].1 == passed[k].1
            &&& passed_views(passed)[k].2 == passed[k].2
        },
{
}

/// Passing shreds on raises the counters of lost and of retransmitted shreds by their numbers, and
/// no other counter.
pub proof fn lost_and_retransmitted_shreds_are_counted(
    stats: ShredSigVerifyStats,
    lost: nat,
    retransmit: nat,
    c: int,
)
    requires
        stats.num_unknown_block_location + lost <= usize::MAX,
        stats.num_retransmit_shreds + retransmit <= usize::MAX,
        0 <= c < stats.counters().len(),
    ensures
        with_lost(stats, lost).num_unknown_block_location == stats.num_unknown_block_location
            + lost,
        passed_counted(stats, lost, retransmit).num_unknown_block_location
            == stats.num_unknown_block_location + lost,
        passed_counted(stats, lost, retransmit).num_retransmit_shreds == stats.num_retransmit_shreds
            + retransmit,
        c != 12 ==> with_lost(stats, lost).counters()[c] == stats.counters()[c],
        c != 11 && c != 12 ==> passed_counted(stats, lost, retransmit).counters()[c]
            == stats.counters()[c],
        with_lost(stats, lost).since == stats.since,
        passed_counted(stats, lost, retransmit).since == stats.since,
{
}

/// A packet has its shred passed on if and only if it is kept and has a layout, and a location was
/// found for it if it carries a nonce. The shred is the start of the packet. It counts as repaired
/// if and only if the packet carries a nonce; it is then stored where it was found to belong, and
/// otherwise with the block that came through the turbine tree.
pub proof fn kept_shreds_are_passed_whole(
    packet: PacketView,
    layout: Option<ShredLayout>,
    found: Option<BlockLocation>,
)
    requires
        layout_fits(packet, layout),
    ensures
        packet_passed(packet, layout, found) is Some <==> !packet.discard && layout is Some && (
        layout->0.nonce is None || found is Some),
        packet_passed(packet, layout, found) matches Some((shred, repaired, location)) ==> {
            &&& shred.len() == layout->0.size
            &&& forall|j: int| 0 <= j < shred.len() ==> #[trigger] shred[j] == packet.bytes->0[j]
            &&& repaired <==> layout->0.nonce is Some
            &&& repaired ==> Some(location) == found
            &&& !repaired ==> location == BlockLocation::Original
        },
{
}

} // verus!
