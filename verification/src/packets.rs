//! Packet batches, as the receiving side of a validator hands them over.

use crate::counting::{
    count_to, counts_are_numbers_of_positions, lemma_count_bound, lemma_count_concat,
    lemma_count_implied, lemma_count_one_more, positions,
};
use solana_perf::packet::bytes::Bytes;
use solana_perf::packet::{PacketBatch, PacketRef};
use vstd::prelude::*;

verus! {

/// What signature verification reads and writes of one packet.
pub struct PacketView {
    /// What the packet carries; `None` if its size exceeds its buffer.
    pub bytes: Option<Seq<u8>>,
    /// The packet is to be ignored from now on.
    pub discard: bool,
    /// The packet answers a repair request.
    pub repair: bool,
    /// The bytes lie in a reference counted buffer, which can be shared without copying.
    pub shared: bool,
}

impl PacketView {
    /// The same packet, marked for discard.
    pub open spec fn discarded(self) -> PacketView {
        PacketView { discard: true, ..self }
    }
}

/// A batch of packets.
#[verifier::external_type_specification]
#[verifier::external_body]
pub struct ExPacketBatch(PacketBatch);

/// A reference counted byte buffer.
#[verifier::external_type_specification]
#[verifier::external_body]
pub struct ExBytes(Bytes);

/// The packets of a batch, in order.
pub uninterp spec fn batch_packets(batch: PacketBatch) -> Seq<PacketView>;

/// The bytes of a buffer.
pub uninterp spec fn buffer_bytes(buffer: Bytes) -> Seq<u8>;

/// The packets of each of several batches.
pub open spec fn batch_views(batches: Seq<PacketBatch>) -> Seq<Seq<PacketView>> {
    batches.map_values(|batch: PacketBatch| batch_packets(batch))
}

/// `PacketBatch::len`: the number of packets in the batch.
#[verifier::external_body]
pub(crate) fn batch_len(batch: &PacketBatch) -> (len: usize)
    ensures
        len == batch_packets(*batch).len(),
{
    batch.len()
}

/// `Meta::discard` of the packet that `PacketBatch::get` finds at `index`: whether the packet is
/// marked for discard.
#[verifier::external_body]
pub(crate) fn packet_discard(batch: &PacketBatch, index: usize) -> (discard: bool)
    requires
        index < batch_packets(*batch).len(),
    ensures
        discard == batch_packets(*batch)[index as int].discard,
{
    batch.get(index).unwrap().meta().discard()
}

/// `Meta::repair` of the packet that `PacketBatch::get` finds at `index`: whether the packet
/// answers a repair request.
#[verifier::external_body]
pub(crate) fn packet_repair(batch: &PacketBatch, index: usize) -> (repair: bool)
    requires
        index < batch_packets(*batch).len(),
    ensures
        repair == batch_packets(*batch)[index as int].repair,
{
    batch.get(index).unwrap().meta().repair()
}

/// `PacketRef::data(..)` of the packet at `index`: all that the packet carries, or `None` if the
/// packet is marked for discard or its size exceeds its buffer.
#[verifier::external_body]
pub(crate) fn packet_data(batch: &PacketBatch, index: usize) -> (data: Option<&[u8]>)
    requires
        index < batch_packets(*batch).len(),
    ensures
        match data {
            Some(data) => {
                &&& !batch_packets(*batch)[index as int].discard
                &&& batch_packets(*batch)[index as int].bytes == Some(data@)
            },
            None => {
                ||| batch_packets(*batch)[index as int].discard
                ||| batch_packets(*batch)[index as int].bytes is None
            },
        },
{
    batch.get(index).unwrap().data(..)
}

/// `BytesPacket::buffer` of the packet at `index`, if the packet is a `BytesPacket`: the buffer
/// that holds what the packet carries. `None` for a packet with a buffer of its own.
#[verifier::external_body]
pub(crate) fn packet_buffer(batch: &PacketBatch, index: usize) -> (buffer: Option<&Bytes>)
    requires
        index < batch_packets(*batch).len(),
    ensures
        match buffer {
            Some(buffer) => {
                &&& batch_packets(*batch)[index as int].shared
                &&& batch_packets(*batch)[index as int].bytes == Some(buffer_bytes(*buffer))
            },
            None => !batch_packets(*batch)[index as int].shared,
        },
{
    match batch.get(index).unwrap() {
        PacketRef::Packet(_) => None,
        PacketRef::Bytes(packet) => Some(packet.buffer()),
    }
}

/// `Meta::set_discard(true)` on the packet that `PacketBatch::get_mut` finds at `index`: marks
/// that packet for discard and changes nothing else in the batch.
#[verifier::external_body]
pub(crate) fn set_packet_discard(batch: &mut PacketBatch, index: usize)
    requires
        index < batch_packets(*old(batch)).len(),
    ensures
        batch_packets(*final(batch)) == batch_packets(*old(batch)).update(
            index as int,
            batch_packets(*old(batch))[index as int].discarded(),
        ),
{
    batch.get_mut(index).unwrap().meta_mut().set_discard(true);
}

/// `Bytes::slice(..len)`: a buffer with the first `len` bytes of `buffer`, which shares them with
/// it.
#[verifier::external_body]
pub(crate) fn buffer_prefix(buffer: &Bytes, len: usize) -> (prefix: Bytes)
    requires
        len <= buffer_bytes(*buffer).len(),
    ensures
        buffer_bytes(prefix) == buffer_bytes(*buffer).take(len as int),
{
    buffer.slice(..len)
}

/// `Bytes::copy_from_slice`: a buffer of its own with a copy of `data`.
#[verifier::external_body]
pub(crate) fn buffer_copied_from(data: &[u8]) -> (buffer: Bytes)
    ensures
        buffer_bytes(buffer) == data@,
{
    Bytes::copy_from_slice(data)
}

/// `Bytes::clone`: another handle on the same bytes.
#[verifier::external_body]
pub(crate) fn buffer_handle(buffer: &Bytes) -> (handle: Bytes)
    ensures
        buffer_bytes(handle) == buffer_bytes(*buffer),
{
    buffer.clone()
}

/// The number of packets that are marked for discard.
pub open spec fn discards(packets: Seq<PacketView>) -> nat {
    count_to(packets.len(), |i: int| packets[i].discard)
}

/// The number of packets that are marked for discard, over all batches.
pub open spec fn total_discards(batches: Seq<Seq<PacketView>>) -> nat
    decreases batches.len(),
{
    if batches.len() == 0 {
        0
    } else {
        total_discards(batches.drop_last()) + discards(batches.last())
    }
}

/// The number of packets, over all batches.
pub open spec fn total_packets(batches: Seq<Seq<PacketView>>) -> nat
    decreases batches.len(),
{
    if batches.len() == 0 {
        0
    } else {
        total_packets(batches.drop_last()) + batches.last().len()
    }
}

pub(crate) proof fn lemma_total_discards_bound(batches: Seq<Seq<PacketView>>)
    ensures
        total_discards(batches) <= total_packets(batches),
    decreases batches.len(),
{
    if batches.len() > 0 {
        lemma_total_discards_bound(batches.drop_last());
        let last = batches.last();
        lemma_count_bound(last.len(), |i: int| last[i].discard);
    }
}

pub(crate) proof fn lemma_total_packets_prefix(batches: Seq<Seq<PacketView>>, n: int)
    requires
        0 <= n <= batches.len(),
    ensures
        total_packets(batches.take(n)) <= total_packets(batches),
    decreases batches.len(),
{
    if n == batches.len() {
        assert(batches.take(n) =~= batches);
    } else {
        lemma_total_packets_prefix(batches.drop_last(), n);
        assert(batches.drop_last().take(n) =~= batches.take(n));
    }
}

/// Batches of the same lengths hold the same number of packets.
pub(crate) proof fn lemma_same_total(left: Seq<Seq<PacketView>>, right: Seq<Seq<PacketView>>)
    requires
        left.len() == right.len(),
        forall|b: int| 0 <= b < left.len() ==> (#[trigger] left[b]).len() == right[b].len(),
    ensures
        total_packets(left) == total_packets(right),
    decreases left.len(),
{
    if left.len() > 0 {
        assert(left.last().len() == right.last().len());
        assert forall|b: int| 0 <= b < left.drop_last().len() implies (
        #[trigger] left.drop_last()[b]).len() == right.drop_last()[b].len() by {
            assert(left[b].len() == right[b].len());
        }
        lemma_same_total(left.drop_last(), right.drop_last());
    }
}

/// Marking one more packet raises the number of marked packets by one.
pub(crate) proof fn lemma_discards_mark(packets: Seq<PacketView>, k: int)
    requires
        0 <= k < packets.len(),
        !packets[k].discard,
    ensures
        discards(packets.update(k, packets[k].discarded())) == discards(packets) + 1,
{
    let marked = packets.update(k, packets[k].discarded());
    lemma_count_one_more(
        packets.len(),
        |i: int| packets[i].discard,
        |i: int| marked[i].discard,
        k,
    );
}

/// As many packets are marked in several batches as in one batch with all of their packets.
pub(crate) proof fn lemma_flattened(batches: Seq<Seq<PacketView>>)
    ensures
        discards(batches.flatten_alt()) == total_discards(batches),
        batches.flatten_alt().len() == total_packets(batches),
    decreases batches.len(),
{
    if batches.len() > 0 {
        let first = batches.drop_last().flatten_alt();
        let last = batches.last();
        let all = batches.flatten_alt();
        lemma_flattened(batches.drop_last());
        lemma_count_concat(
            first.len(),
            last.len(),
            |i: int| all[i].discard,
            |i: int| first[i].discard,
            |i: int| last[i].discard,
        );
    }
}

/// No more packets are marked than there are, and none where there are no batches.
pub proof fn marked_packets_are_packets(batches: Seq<Seq<PacketView>>)
    ensures
        total_discards(batches) <= total_packets(batches),
        batches.len() == 0 ==> total_discards(batches) == 0,
{
    lemma_total_discards_bound(batches);
}

/// As many packets are marked in two lists of batches together as in the one and in the other.
pub proof fn discards_add_up(left: Seq<Seq<PacketView>>, right: Seq<Seq<PacketView>>)
    ensures
        total_discards(left + right) == total_discards(left) + total_discards(right),
        total_packets(left + right) == total_packets(left) + total_packets(right),
    decreases right.len(),
{
    if right.len() == 0 {
        assert(left + right =~= left);
    } else {
        assert((left + right).drop_last() =~= left + right.drop_last());
        discards_add_up(left, right.drop_last());
    }
}

/// How many packets are marked does not depend on how they are grouped into batches: as many are
/// marked as in one batch with all of them.
pub proof fn grouping_of_discards_does_not_count(
    left: Seq<Seq<PacketView>>,
    right: Seq<Seq<PacketView>>,
)
    ensures
        total_discards(left) == discards(left.flatten()),
        total_packets(left) == left.flatten().len(),
        left.flatten() == right.flatten() ==> total_discards(left) == total_discards(right)
            && total_packets(left) == total_packets(right),
{
    left.lemma_flatten_and_flatten_alt_are_equivalent();
    right.lemma_flatten_and_flatten_alt_are_equivalent();
    lemma_flattened(left);
    lemma_flattened(right);
}

/// A batch can be taken out of the sums.
pub(crate) proof fn lemma_total_remove(batches: Seq<Seq<PacketView>>, j: int)
    requires
        0 <= j < batches.len(),
    ensures
        total_discards(batches) == total_discards(batches.remove(j)) + discards(batches[j]),
        total_packets(batches) == total_packets(batches.remove(j)) + batches[j].len(),
    decreases batches.len(),
{
    let rest = batches.remove(j);
    if j == batches.len() - 1 {
        assert(rest =~= batches.drop_last());
    } else {
        lemma_total_remove(batches.drop_last(), j);
        assert(rest.drop_last() =~= batches.drop_last().remove(j));
    }
}

/// How many packets are marked does not depend on the order of the batches.
pub proof fn order_of_batches_does_not_count(
    left: Seq<Seq<PacketView>>,
    right: Seq<Seq<PacketView>>,
)
    requires
        left.to_multiset() == right.to_multiset(),
    ensures
        total_discards(left) == total_discards(right),
        total_packets(left) == total_packets(right),
    decreases left.len(),
{
    left.to_multiset_ensures();
    right.to_multiset_ensures();
    if left.len() > 0 {
        let last = left.len() - 1;
        assert(left.contains(left[last]));
        assert(right.to_multiset().count(left[last]) > 0);
        let j = choose|j: int| 0 <= j < right.len() && right[j] == left[last];
        lemma_total_remove(left, last);
        lemma_total_remove(right, j);
        order_of_batches_does_not_count(left.remove(last), right.remove(j));
    }
}

/// Where packets are only ever marked, no fewer are marked in the end.
pub(crate) proof fn lemma_total_discards_grow(
    before: Seq<Seq<PacketView>>,
    after: Seq<Seq<PacketView>>,
)
    requires
        before.len() == after.len(),
        forall|b: int| 0 <= b < before.len() ==> (#[trigger] before[b]).len() == after[b].len(),
        forall|b: int, i: int|
            0 <= b < before.len() && 0 <= i < before[b].len() && (
            #[trigger] before[b][i]).discard ==> after[b][i].discard,
    ensures
        total_discards(before) <= total_discards(after),
    decreases before.len(),
{
    if before.len() > 0 {
        let n = before.len() - 1;
        let (left, right) = (before[n], after[n]);
        assert forall|b: int| 0 <= b < n implies (#[trigger] before.drop_last()[b]).len()
            == after.drop_last()[b].len() by {
            assert(before[b].len() == after[b].len());
        }
        assert forall|b: int, i: int|
            0 <= b < n && 0 <= i < before.drop_last()[b].len() && (
            #[trigger] before.drop_last()[b][i]).discard implies after.drop_last()[b][i].discard
            by {
            assert(before[b][i].discard);
        }
        lemma_total_discards_grow(before.drop_last(), after.drop_last());
        assert forall|i: int| 0 <= i < left.len() && #[trigger] left[i].discard implies
            right[i].discard by {
            assert(before[n][i].discard);
        }
        lemma_count_implied(left.len(), |i: int| left[i].discard, |i: int| right[i].discard);
    }
}

/// Counts the packets of a batch that are marked for discard.
fn count_batch_discards(batch: &PacketBatch) -> (count: usize)
    ensures
        count == discards(batch_packets(*batch)),
{
    let len: usize = batch_len(batch);
    let ghost packets = batch_packets(*batch);
    let ghost marked = |i: int| packets[i].discard;
    let mut count: usize = 0;
    for index in 0..len
        invariant
            len == packets.len(),
            packets == batch_packets(*batch),
            marked == (|i: int| packets[i].discard),
            count == count_to(index as nat, marked),
            count <= index,
    {
        if packet_discard(batch, index) {
            count += 1;
        }
    }
    count
}

/// Counts the packets that are marked for discard, over all batches.
pub fn count_discards(packets: &[PacketBatch]) -> (count: usize)
    requires
        total_packets(batch_views(packets@)) <= usize::MAX,
    ensures
        count == total_discards(batch_views(packets@)),
{
    let ghost views = batch_views(packets@);
    let mut count: usize = 0;
    for index in 0..packets.len()
        invariant
            views == batch_views(packets@),
            total_packets(views) <= usize::MAX,
            count == total_discards(views.take(index as int)),
    {
        let in_batch: usize = count_batch_discards(&packets[index]);
        proof {
            let next = views.take(index + 1);
            assert(next.drop_last() =~= views.take(index as int));
            lemma_total_discards_bound(next);
            lemma_total_packets_prefix(views, index + 1);
        }
        count += in_batch;
    }
    assert(views.take(packets@.len() as int) =~= views);
    count
}

/// Marking a packet for discard changes nothing else about it.
pub proof fn marking_changes_only_the_mark(packet: PacketView)
    ensures
        packet.discarded().discard,
        packet.discarded().bytes == packet.bytes,
        packet.discarded().repair == packet.repair,
        packet.discarded().shared == packet.shared,
{
}

/// Several batches are viewed one by one.
pub proof fn batches_are_viewed_one_by_one(batches: Seq<PacketBatch>, b: int)
    requires
        0 <= b < batches.len(),
    ensures
        batch_views(batches).len() == batches.len(),
        batch_views(batches)[b] == batch_packets(batches[b]),
{
}

/// As many packets of a batch are marked as there are positions with a marked packet.
pub proof fn discards_are_marked_positions(packets: Seq<PacketView>)
    ensures
        discards(packets) == positions(packets.len(), |i: int| packets[i].discard).len(),
{
    counts_are_numbers_of_positions(packets.len(), |i: int| packets[i].discard);
}

/// A list of one batch has the packets of that batch, and no list has none.
pub proof fn totals_of_one_batch(packets: Seq<PacketView>)
    ensures
        total_discards(Seq::empty()) == 0,
        total_packets(Seq::empty()) == 0,
        total_discards(seq![packets]) == discards(packets),
        total_packets(seq![packets]) == packets.len(),
{
    reveal_with_fuel(total_discards, 2);
    reveal_with_fuel(total_packets, 2);
    assert(seq![packets].drop_last() =~= Seq::<Seq<PacketView>>::empty());
}

} // verus!
