//! Dropping shreds that were received before.

use crate::packets::{
    batch_len, batch_packets, batch_views, discards, lemma_discards_mark, lemma_same_total,
    lemma_total_discards_bound, lemma_total_packets_prefix, packet_data, packet_discard,
    packet_repair, set_packet_discard, total_discards, total_packets, PacketView,
};
use solana_perf::deduper::Deduper;
use solana_perf::packet::PacketBatch;
use vstd::prelude::*;

verus! {

/// Size of the filter, in bits: 76MB.
pub const DEDUPER_NUM_BITS: u64 = 637_534_199;

/// A filter that remembers data it was shown.
#[verifier::external_type_specification]
#[verifier::external_body]
#[verifier::reject_recursive_types(T)]
pub struct ExDeduper<const K: usize, T: ?Sized>(Deduper<K, T>);

/// The bits of the filter that are set.
pub uninterp spec fn set_bits(deduper: Deduper<2, [u8]>) -> Set<u64>;

/// The bits that the filter has for data. They depend on the hash functions of the filter, which
/// are part of it.
pub uninterp spec fn bits_of(deduper: Deduper<2, [u8]>, data: Seq<u8>) -> Set<u64>;

/// The number of bits that the filter was made with.
pub uninterp spec fn filter_bits(deduper: Deduper<2, [u8]>) -> u64;

/// `Deduper::new`, with the thread's random number generator: a filter without a set bit. Which
/// hash functions it uses is left to chance; they give at least one bit for any data.
#[verifier::external_body]
fn new_filter(num_bits: u64) -> (deduper: Deduper<2, [u8]>)
    requires
        num_bits <= isize::MAX,
    ensures
        set_bits(deduper) == Set::<u64>::empty(),
        filter_bits(deduper) == num_bits,
        num_bits > 0 ==> forall|data: Seq<u8>| #[trigger]
            bits_of(deduper, data) != Set::<u64>::empty(),
{
    Deduper::new(&mut rand::rng(), num_bits)
}

/// `Deduper::dedup`: sets the bits that the filter has for `data`, and reports a duplicate if all
/// of them were set before. So data that was shown to the filter before is always reported, and
/// other data is reported if its bits happen to be set. The hash functions stay as they are.
#[verifier::external_body]
fn filter_reports(deduper: &mut Deduper<2, [u8]>, data: &[u8]) -> (duplicate: bool)
    requires
        filter_bits(*old(deduper)) > 0,
    ensures
        duplicate == bits_of(*old(deduper), data@).subset_of(set_bits(*old(deduper))),
        set_bits(*final(deduper)) == set_bits(*old(deduper)).union(bits_of(*old(deduper), data@)),
        forall|other: Seq<u8>| #[trigger]
            bits_of(*final(deduper), other) == bits_of(*old(deduper), other),
        filter_bits(*final(deduper)) == filter_bits(*old(deduper)),
{
    deduper.dedup(data)
}

/// A filter: the bits that are set, and those that it has for any data.
#[verifier::ext_equal]
pub struct FilterView {
    /// The bits that are set.
    pub bits: Set<u64>,
    /// The bits for any data.
    pub bits_of: spec_fn(Seq<u8>) -> Set<u64>,
}

/// A filter.
pub open spec fn filter_view(deduper: Deduper<2, [u8]>) -> FilterView {
    FilterView { bits: set_bits(deduper), bits_of: |data: Seq<u8>| bits_of(deduper, data) }
}

impl FilterView {
    /// The filter has bits for any data.
    pub open spec fn wf(self) -> bool {
        forall|data: Seq<u8>| #[trigger] (self.bits_of)(data) != Set::<u64>::empty()
    }

    /// Whether the filter takes data for known: all of its bits are set.
    pub open spec fn knows(self, data: Seq<u8>) -> bool {
        (self.bits_of)(data).subset_of(self.bits)
    }

    /// The filter after it was shown data.
    pub open spec fn shown(self, data: Seq<u8>) -> FilterView {
        FilterView { bits: self.bits.union((self.bits_of)(data)), ..self }
    }

    /// The filter after it was shown the shreds in the first `n` packets of a batch.
    pub open spec fn shown_packets(
        self,
        packets: Seq<PacketView>,
        sizes: Seq<Option<usize>>,
        n: int,
    ) -> FilterView
        decreases n,
    {
        if n <= 0 {
            self
        } else {
            let before = self.shown_packets(packets, sizes, n - 1);
            match shred_in(packets[n - 1], sizes[n - 1]) {
                Some(shred) => before.shown(shred),
                None => before,
            }
        }
    }

    /// The filter after it was shown the shreds in the first `n` batches.
    pub open spec fn shown_batches(
        self,
        batches: Seq<Seq<PacketView>>,
        sizes: Seq<Seq<Option<usize>>>,
        n: int,
    ) -> FilterView
        decreases n,
    {
        if n <= 0 {
            self
        } else {
            self.shown_batches(batches, sizes, n - 1).shown_packets(
                batches[n - 1],
                sizes[n - 1],
                batches[n - 1].len() as int,
            )
        }
    }

    /// The filter when it comes to the packet in position `i` of batch `b`.
    pub open spec fn before_packet(
        self,
        batches: Seq<Seq<PacketView>>,
        sizes: Seq<Seq<Option<usize>>>,
        b: int,
        i: int,
    ) -> FilterView {
        self.shown_batches(batches, sizes, b).shown_packets(batches[b], sizes[b], i)
    }
}

/// A filter for shreds, which was shown none yet.
pub fn new_shred_deduper() -> (deduper: Deduper<2, [u8]>)
    ensures
        filter_view(deduper).bits == Set::<u64>::empty(),
        filter_view(deduper).wf(),
        filter_bits(deduper) == DEDUPER_NUM_BITS,
        filter_bits(deduper) == 637_534_199,
        set_bits(deduper) == Set::<u64>::empty(),
{
    let deduper = new_filter(DEDUPER_NUM_BITS);
    assert forall|data: Seq<u8>| #[trigger]
        (filter_view(deduper).bits_of)(data) != Set::<u64>::empty() by {
        assert(bits_of(deduper, data) != Set::<u64>::empty());
    }
    deduper
}

/// The shred in a packet: its first `size` bytes. Trailing bytes are allowed, and are no part of
/// the shred. `None` if the packet is marked for discard, is unreadable or too short, or if no
/// shred size can be told from it.
pub open spec fn shred_in(packet: PacketView, size: Option<usize>) -> Option<Seq<u8>> {
    match (packet.bytes, size) {
        (Some(bytes), Some(size)) if !packet.discard && size <= bytes.len() => Some(
            bytes.take(size as int),
        ),
        _ => None,
    }
}

/// The shred in the packet at `index`, whose shred has the given size.
pub(crate) fn packet_shred(
    batch: &PacketBatch,
    index: usize,
    size: Option<usize>,
) -> (shred: Option<&[u8]>)
    requires
        index < batch_packets(*batch).len(),
    ensures
        match shred {
            Some(shred) => shred_in(batch_packets(*batch)[index as int], size) == Some(shred@),
            None => shred_in(batch_packets(*batch)[index as int], size) is None,
        },
        shred matches Some(shred) ==> {
            &&& size == Some(shred@.len() as usize)
            &&& batch_packets(*batch)[index as int].bytes matches Some(bytes) && forall|j: int|
                0 <= j < shred@.len() ==> #[trigger] shred@[j] == bytes[j]
        },
{
    match (packet_data(batch, index), size) {
        (Some(data), Some(size)) => {
            if size <= data.len() {
                let shred = &data[0..size];
                assert(shred@ =~= data@.take(size as int));
                Some(shred)
            } else {
                None
            }
        },
        _ => None,
    }
}

/// Whether a packet is dropped as a duplicate. `reported` is what the filter said of its shred,
/// `None` if there is no shred in the packet. Packets that answer a repair request are kept
/// whatever the filter says: their nonce was verified before, and a false positive must not keep
/// a block from being repaired.
pub fn is_dropped_duplicate(discard: bool, repair: bool, reported: Option<bool>) -> (dropped: bool)
    ensures
        dropped == (!discard && !repair && reported != Some(false)),
{
    !discard && reported.unwrap_or(true) && !repair
}

/// The packets of a batch, with those marked that are dropped as duplicates by what the filter
/// reported of their shreds.
pub open spec fn batch_marked(packets: Seq<PacketView>, reports: Seq<Option<bool>>) -> Seq<
    PacketView,
> {
    Seq::new(
        packets.len(),
        |i: int|
            if !packets[i].discard && !packets[i].repair && reports[i] != Some(false) {
                packets[i].discarded()
            } else {
                packets[i]
            },
    )
}

/// What a filter reports of the shred in a packet: nothing, if there is none.
pub open spec fn packet_report(
    filter: FilterView,
    packet: PacketView,
    size: Option<usize>,
) -> Option<bool> {
    match shred_in(packet, size) {
        Some(shred) => Some(filter.knows(shred)),
        None => None,
    }
}

/// What a filter reports of the shreds in a batch, when it is shown one after the other.
pub open spec fn batch_reports(
    filter: FilterView,
    packets: Seq<PacketView>,
    sizes: Seq<Option<usize>>,
) -> Seq<Option<bool>> {
    Seq::new(
        packets.len(),
        |i: int|
            packet_report(filter.shown_packets(packets, sizes, i), packets[i], sizes[i]),
    )
}

/// What a filter reports of the shreds in several batches, when it is shown one after the other.
pub open spec fn all_reports(
    filter: FilterView,
    batches: Seq<Seq<PacketView>>,
    sizes: Seq<Seq<Option<usize>>>,
) -> Seq<Seq<Option<bool>>> {
    Seq::new(
        batches.len(),
        |b: int|
            batch_reports(filter.shown_batches(batches, sizes, b), batches[b], sizes[b]),
    )
}

/// The elements of several vectors.
pub open spec fn inner_views<T>(rows: Seq<Vec<T>>) -> Seq<Seq<T>> {
    rows.map_values(|row: Vec<T>| row@)
}

/// There is a value for each packet.
pub open spec fn same_shape<T>(batches: Seq<Seq<PacketView>>, rows: Seq<Seq<T>>) -> bool {
    &&& rows.len() == batches.len()
    &&& forall|b: int| 0 <= b < batches.len() ==> (#[trigger] rows[b]).len() == batches[b].len()
}

/// Shows data to the filter; returns whether the filter takes it for known.
fn show(deduper: &mut Deduper<2, [u8]>, data: &[u8]) -> (duplicate: bool)
    requires
        filter_bits(*old(deduper)) > 0,
    ensures
        duplicate == filter_view(*old(deduper)).knows(data@),
        filter_view(*final(deduper)) == filter_view(*old(deduper)).shown(data@),
        filter_bits(*final(deduper)) == filter_bits(*old(deduper)),
{
    let ghost before = *deduper;
    let duplicate: bool = filter_reports(deduper, data);
    assert(filter_view(*deduper).bits_of =~= filter_view(before).bits_of) by {
        assert forall|other: Seq<u8>| #[trigger]
            (filter_view(*deduper).bits_of)(other) == (filter_view(before).bits_of)(other) by {
            assert(bits_of(*deduper, other) == bits_of(before, other));
        }
    }
    duplicate
}

/// Shows the shreds of one batch to the filter; returns what it reported of each.
fn report_batch(
    batch: &PacketBatch,
    sizes: &Vec<Option<usize>>,
    deduper: &mut Deduper<2, [u8]>,
) -> (reports: Vec<Option<bool>>)
    requires
        sizes@.len() == batch_packets(*batch).len(),
        filter_bits(*old(deduper)) > 0,
    ensures
        reports@ == batch_reports(filter_view(*old(deduper)), batch_packets(*batch), sizes@),
        filter_view(*final(deduper)) == filter_view(*old(deduper)).shown_packets(
            batch_packets(*batch),
            sizes@,
            sizes@.len() as int,
        ),
        filter_bits(*final(deduper)) == filter_bits(*old(deduper)),
{
    let ghost packets = batch_packets(*batch);
    let ghost filter = filter_view(*deduper);
    let ghost bits = filter_bits(*deduper);
    let len: usize = batch_len(batch);
    let mut reports: Vec<Option<bool>> = Vec::new();
    for index in 0..len
        invariant
            len == packets.len(),
            packets == batch_packets(*batch),
            sizes@.len() == len,
            reports@ == batch_reports(filter, packets, sizes@).take(index as int),
            filter_view(*deduper) == filter.shown_packets(packets, sizes@, index as int),
            filter_bits(*deduper) == bits,
            bits > 0,
    {
        let report: Option<bool> = match packet_shred(batch, index, sizes[index]) {
            Some(shred) => Some(show(deduper, shred)),
            None => None,
        };
        reports.push(report);
        assert(reports@ =~= batch_reports(filter, packets, sizes@).take(index + 1));
    }
    assert(batch_reports(filter, packets, sizes@).take(len as int) =~= batch_reports(
        filter,
        packets,
        sizes@,
    ));
    reports
}

/// Marks the packets of one batch that are dropped as duplicates; returns how many.
fn mark_batch(batch: &mut PacketBatch, reports: &Vec<Option<bool>>) -> (count: usize)
    requires
        reports@.len() == batch_packets(*old(batch)).len(),
    ensures
        batch_packets(*final(batch)) == batch_marked(batch_packets(*old(batch)), reports@),
        count == discards(batch_packets(*final(batch))) - discards(batch_packets(*old(batch))),
{
    let ghost before = batch_packets(*batch);
    let ghost marked = batch_marked(before, reports@);
    let len: usize = batch_len(batch);
    let mut count: usize = 0;
    for index in 0..len
        invariant
            len == before.len(),
            reports@.len() == len,
            marked == batch_marked(before, reports@),
            count <= index,
            batch_packets(*batch) == marked.take(index as int) + before.skip(index as int),
            count == discards(batch_packets(*batch)) - discards(before),
    {
        let ghost current = batch_packets(*batch);
        assert(current[index as int] == before[index as int]);
        let discard: bool = packet_discard(batch, index);
        let repair: bool = packet_repair(batch, index);
        if is_dropped_duplicate(discard, repair, reports[index]) {
            proof {
                lemma_discards_mark(current, index as int);
            }
            set_packet_discard(batch, index);
            count += 1;
        }
        assert(batch_packets(*batch) =~= marked.take(index + 1) + before.skip(index + 1));
    }
    assert(marked.take(len as int) + before.skip(len as int) =~= marked);
    count
}

/// Several batches, with the packets marked that are dropped as duplicates.
pub open spec fn batches_marked(
    batches: Seq<Seq<PacketView>>,
    reports: Seq<Seq<Option<bool>>>,
) -> Seq<Seq<PacketView>> {
    Seq::new(batches.len(), |b: int| batch_marked(batches[b], reports[b]))
}

/// Several batches, with the packets marked whose shreds a filter takes for known, and those
/// without a shred. Packets that answer a repair request are left alone.
pub open spec fn batches_deduped(
    filter: FilterView,
    batches: Seq<Seq<PacketView>>,
    sizes: Seq<Seq<Option<usize>>>,
) -> Seq<Seq<PacketView>> {
    batches_marked(batches, all_reports(filter, batches, sizes))
}

/// Shows the shreds in the packets to the filter, in order; returns what it reported of each.
/// `sizes` holds the size of the shred in each packet.
pub fn report_duplicates(
    batches: &[PacketBatch],
    sizes: &[Vec<Option<usize>>],
    deduper: &mut Deduper<2, [u8]>,
) -> (reports: Vec<Vec<Option<bool>>>)
    requires
        same_shape(batch_views(batches@), inner_views(sizes@)),
        filter_bits(*old(deduper)) > 0,
    ensures
        inner_views(reports@) == all_reports(
            filter_view(*old(deduper)),
            batch_views(batches@),
            inner_views(sizes@),
        ),
        filter_view(*final(deduper)) == filter_view(*old(deduper)).shown_batches(
            batch_views(batches@),
            inner_views(sizes@),
            batches@.len() as int,
        ),
        filter_bits(*final(deduper)) == filter_bits(*old(deduper)),
{
    let ghost views = batch_views(batches@);
    let ghost all_sizes = inner_views(sizes@);
    let ghost filter = filter_view(*deduper);
    let ghost bits = filter_bits(*deduper);
    let ghost expected = all_reports(filter, views, all_sizes);
    let mut reports: Vec<Vec<Option<bool>>> = Vec::new();
    for index in 0..batches.len()
        invariant
            views == batch_views(batches@),
            all_sizes == inner_views(sizes@),
            same_shape(views, all_sizes),
            expected == all_reports(filter, views, all_sizes),
            inner_views(reports@) == expected.take(index as int),
            filter_view(*deduper) == filter.shown_batches(views, all_sizes, index as int),
            filter_bits(*deduper) == bits,
            bits > 0,
    {
        assert(all_sizes[index as int] == sizes@[index as int]@);
        assert(views[index as int] == batch_packets(batches@[index as int]));
        let ghost before = inner_views(reports@);
        let row = report_batch(&batches[index], &sizes[index], deduper);
        reports.push(row);
        assert(inner_views(reports@) =~= before.push(row@));
        assert(before.push(row@) =~= expected.take(index + 1));
    }
    assert(expected.take(batches@.len() as int) =~= expected);
    reports
}

/// Marks the packets that are dropped as duplicates by what the filter reported of their shreds;
/// returns how many.
pub fn mark_duplicates(batches: &mut Vec<PacketBatch>, reports: &[Vec<Option<bool>>]) -> (count:
    usize)
    requires
        same_shape(batch_views(old(batches)@), inner_views(reports@)),
        total_packets(batch_views(old(batches)@)) <= usize::MAX,
    ensures
        batch_views(final(batches)@) == batches_marked(
            batch_views(old(batches)@),
            inner_views(reports@),
        ),
        count == total_discards(batch_views(final(batches)@)) - total_discards(
            batch_views(old(batches)@),
        ),
{
    let ghost before = batch_views(batches@);
    let ghost rows = inner_views(reports@);
    let ghost marked = batches_marked(before, rows);
    let mut count: usize = 0;
    assert(before =~= marked.take(0) + before.skip(0));
    let num_batches: usize = batches.len();
    for index in 0..num_batches
        invariant
            num_batches == before.len(),
            batches@.len() == before.len(),
            rows == inner_views(reports@),
            same_shape(before, rows),
            total_packets(before) <= usize::MAX,
            marked == batches_marked(before, rows),
            batch_views(batches@) == marked.take(index as int) + before.skip(index as int),
            count == total_discards(marked.take(index as int)) - total_discards(
                before.take(index as int),
            ),
    {
        let ghost current = batch_views(batches@);
        assert(current[index as int] == before[index as int]);
        assert(rows[index as int] == reports@[index as int]@);
        let in_batch: usize = mark_batch(&mut batches[index], &reports[index]);
        proof {
            assert(batch_views(batches@) =~= current.update(
                index as int,
                marked[index as int],
            ));
            assert(batch_views(batches@) =~= marked.take(index + 1) + before.skip(index + 1));
            assert(marked.take(index + 1).drop_last() =~= marked.take(index as int));
            assert(before.take(index + 1).drop_last() =~= before.take(index as int));
            lemma_total_discards_bound(marked.take(index + 1));
            lemma_total_packets_prefix(marked, index + 1);
            lemma_same_total(marked, before);
        }
        count += in_batch;
    }
    assert(marked.take(before.len() as int) + before.skip(before.len() as int) =~= marked);
    assert(marked.take(before.len() as int) =~= marked);
    assert(before.take(before.len() as int) =~= before);
    count
}

/// Drops the packets whose shreds the filter takes for known, and those without a shred; returns
/// how many.
pub fn drop_duplicates(
    batches: &mut Vec<PacketBatch>,
    sizes: &[Vec<Option<usize>>],
    deduper: &mut Deduper<2, [u8]>,
) -> (count: usize)
    requires
        same_shape(batch_views(old(batches)@), inner_views(sizes@)),
        total_packets(batch_views(old(batches)@)) <= usize::MAX,
        filter_bits(*old(deduper)) > 0,
    ensures
        batch_views(final(batches)@) == batches_deduped(
            filter_view(*old(deduper)),
            batch_views(old(batches)@),
            inner_views(sizes@),
        ),
        count == total_discards(batch_views(final(batches)@)) - total_discards(
            batch_views(old(batches)@),
        ),
        filter_view(*final(deduper)) == filter_view(*old(deduper)).shown_batches(
            batch_views(old(batches)@),
            inner_views(sizes@),
            old(batches)@.len() as int,
        ),
        filter_bits(*final(deduper)) == filter_bits(*old(deduper)),
{
    let reports = report_duplicates(batches.as_slice(), sizes, deduper);
    mark_duplicates(batches, reports.as_slice())
}

/// The filter forgets nothing within a batch, and knows all that it was shown there.
proof fn lemma_shown_packets(
    filter: FilterView,
    packets: Seq<PacketView>,
    sizes: Seq<Option<usize>>,
    n: int,
)
    requires
        0 <= n <= packets.len(),
    ensures
        filter.shown_packets(packets, sizes, n).bits_of == filter.bits_of,
        filter.bits.subset_of(filter.shown_packets(packets, sizes, n).bits),
        forall|i: int|
            0 <= i < n && shred_in(#[trigger] packets[i], sizes[i]) is Some
                ==> filter.shown_packets(packets, sizes, n).knows(
                shred_in(packets[i], sizes[i])->0,
            ),
    decreases n,
{
    if n > 0 {
        lemma_shown_packets(filter, packets, sizes, n - 1);
    }
}

/// The filter forgets nothing over several batches, and knows all that it was shown there.
proof fn lemma_shown_batches(
    filter: FilterView,
    batches: Seq<Seq<PacketView>>,
    sizes: Seq<Seq<Option<usize>>>,
    n: int,
)
    requires
        0 <= n <= batches.len(),
    ensures
        filter.shown_batches(batches, sizes, n).bits_of == filter.bits_of,
        filter.bits.subset_of(filter.shown_batches(batches, sizes, n).bits),
        forall|b: int, i: int|
            0 <= b < n && 0 <= i < batches[b].len() && shred_in(
                #[trigger] batches[b][i],
                sizes[b][i],
            ) is Some ==> filter.shown_batches(batches, sizes, n).knows(
                shred_in(batches[b][i], sizes[b][i])->0,
            ),
    decreases n,
{
    if n > 0 {
        let before = filter.shown_batches(batches, sizes, n - 1);
        let last = batches[n - 1];
        lemma_shown_batches(filter, batches, sizes, n - 1);
        lemma_shown_packets(before, last, sizes[n - 1], last.len() as int);
        let after = filter.shown_batches(batches, sizes, n);
        assert forall|b: int, i: int|
            0 <= b < n && 0 <= i < batches[b].len() && shred_in(
                #[trigger] batches[b][i],
                sizes[b][i],
            ) is Some implies after.knows(shred_in(batches[b][i], sizes[b][i])->0) by {
            if b < n - 1 {
                assert(before.knows(shred_in(batches[b][i], sizes[b][i])->0));
            } else {
                assert(shred_in(last[i], sizes[n - 1][i]) is Some);
            }
        }
    }
}

/// Dropping duplicates leaves the number of packets in each batch as it is.
pub(crate) proof fn lemma_deduped_lengths(
    filter: FilterView,
    batches: Seq<Seq<PacketView>>,
    sizes: Seq<Seq<Option<usize>>>,
)
    ensures
        batches_deduped(filter, batches, sizes).len() == batches.len(),
        forall|b: int|
            0 <= b < batches.len() ==> (#[trigger] batches[b]).len() == batches_deduped(
                filter,
                batches,
                sizes,
            )[b].len(),
        total_packets(batches) == total_packets(batches_deduped(filter, batches, sizes)),
{
    lemma_same_total(batches, batches_deduped(filter, batches, sizes));
}

/// Packets are only ever marked, never unmarked, and nothing else about them changes. A packet is
/// newly marked if and only if it was not marked, answers no repair request, and holds no shred or
/// one that the filter takes for known.
pub proof fn dropping_duplicates_only_marks(
    filter: FilterView,
    batches: Seq<Seq<PacketView>>,
    sizes: Seq<Seq<Option<usize>>>,
    b: int,
    i: int,
)
    requires
        0 <= b < batches.len(),
        0 <= i < batches[b].len(),
    ensures
        ({
            let packet = batches[b][i];
            let after = batches_deduped(filter, batches, sizes)[b][i];
            let known = match shred_in(packet, sizes[b][i]) {
                Some(shred) => filter.before_packet(batches, sizes, b, i).knows(shred),
                None => true,
            };
            after == if !packet.discard && !packet.repair && known {
                packet.discarded()
            } else {
                packet
            }
        }),
{
}

/// Packets that answer a repair request are never dropped as duplicates.
pub proof fn repairs_are_never_duplicates(
    filter: FilterView,
    batches: Seq<Seq<PacketView>>,
    sizes: Seq<Seq<Option<usize>>>,
    b: int,
    i: int,
)
    requires
        0 <= b < batches.len(),
        0 <= i < batches[b].len(),
        batches[b][i].repair,
    ensures
        batches_deduped(filter, batches, sizes)[b][i] == batches[b][i],
{
}

/// A packet that is kept and answers no repair request holds a shred, which no packet before it
/// held and which the filter did not know. So a shred passes at most once, and not at all once it
/// was repaired.
pub proof fn kept_shreds_are_new(
    filter: FilterView,
    batches: Seq<Seq<PacketView>>,
    sizes: Seq<Seq<Option<usize>>>,
    b: int,
    i: int,
)
    requires
        0 <= b < batches.len(),
        0 <= i < batches[b].len(),
        !batches[b][i].repair,
        !batches_deduped(filter, batches, sizes)[b][i].discard,
    ensures
        shred_in(batches[b][i], sizes[b][i]) matches Some(shred) && !filter.knows(shred),
        forall|c: int, j: int|
            0 <= c < batches.len() && 0 <= j < batches[c].len() && (c < b || (c == b && j < i))
                ==> shred_in(#[trigger] batches[c][j], sizes[c][j]) != shred_in(
                batches[b][i],
                sizes[b][i],
            ),
{
    dropping_duplicates_only_marks(filter, batches, sizes, b, i);
    let shred = shred_in(batches[b][i], sizes[b][i])->0;
    let at_batch = filter.shown_batches(batches, sizes, b);
    lemma_shown_batches(filter, batches, sizes, b);
    lemma_shown_packets(at_batch, batches[b], sizes[b], i);
    assert forall|c: int, j: int|
        0 <= c < batches.len() && 0 <= j < batches[c].len() && (c < b || (c == b && j < i)) implies
        shred_in(#[trigger] batches[c][j], sizes[c][j]) != Some(shred) by {
        if shred_in(batches[c][j], sizes[c][j]) == Some(shred) {
            if c < b {
                assert(at_batch.knows(shred));
            }
            assert(filter.before_packet(batches, sizes, b, i).knows(shred));
        }
    }
}

/// The first shred that a new filter is shown is kept.
pub proof fn first_shred_is_kept(
    filter: FilterView,
    batches: Seq<Seq<PacketView>>,
    sizes: Seq<Seq<Option<usize>>>,
    b: int,
    i: int,
)
    requires
        filter.wf(),
        filter.bits == Set::<u64>::empty(),
        0 <= b < batches.len(),
        0 <= i < batches[b].len(),
        shred_in(batches[b][i], sizes[b][i]) is Some,
        forall|c: int, j: int|
            0 <= c < batches.len() && 0 <= j < batches[c].len() && (c < b || (c == b && j < i))
                ==> shred_in(#[trigger] batches[c][j], sizes[c][j]) is None,
    ensures
        batches_deduped(filter, batches, sizes)[b][i] == batches[b][i],
{
    let shred = shred_in(batches[b][i], sizes[b][i])->0;
    lemma_nothing_shown_batches(filter, batches, sizes, b);
    lemma_nothing_shown(filter, batches[b], sizes[b], i);
    if (filter.bits_of)(shred).subset_of(filter.bits) {
        assert((filter.bits_of)(shred) =~= Set::<u64>::empty());
    }
}

/// Packets without a shred leave the filter as it is.
proof fn lemma_nothing_shown(
    filter: FilterView,
    packets: Seq<PacketView>,
    sizes: Seq<Option<usize>>,
    n: int,
)
    requires
        0 <= n <= packets.len(),
        forall|j: int| 0 <= j < n ==> shred_in(#[trigger] packets[j], sizes[j]) is None,
    ensures
        filter.shown_packets(packets, sizes, n) == filter,
    decreases n,
{
    if n > 0 {
        lemma_nothing_shown(filter, packets, sizes, n - 1);
        assert(shred_in(packets[n - 1], sizes[n - 1]) is None);
    }
}

/// Batches without a shred leave the filter as it is.
proof fn lemma_nothing_shown_batches(
    filter: FilterView,
    batches: Seq<Seq<PacketView>>,
    sizes: Seq<Seq<Option<usize>>>,
    n: int,
)
    requires
        0 <= n <= batches.len(),
        forall|c: int, j: int|
            0 <= c < n && 0 <= j < batches[c].len() ==> shred_in(
                #[trigger] batches[c][j],
                sizes[c][j],
            ) is None,
    ensures
        filter.shown_batches(batches, sizes, n) == filter,
    decreases n,
{
    if n > 0 {
        lemma_nothing_shown_batches(filter, batches, sizes, n - 1);
        let last = batches[n - 1];
        assert forall|j: int| 0 <= j < last.len() implies shred_in(
            #[trigger] last[j],
            sizes[n - 1][j],
        ) is None by {
            assert(shred_in(batches[n - 1][j], sizes[n - 1][j]) is None);
        }
        lemma_nothing_shown(filter, last, sizes[n - 1], last.len() as int);
    }
}

/// A shred that the filter was shown in one round is dropped in the next round that uses the same
/// filter, unless it answers a repair request.
pub proof fn shreds_of_earlier_rounds_are_dropped(
    filter: FilterView,
    first: Seq<Seq<PacketView>>,
    first_sizes: Seq<Seq<Option<usize>>>,
    batches: Seq<Seq<PacketView>>,
    sizes: Seq<Seq<Option<usize>>>,
    c: int,
    j: int,
    b: int,
    i: int,
)
    requires
        0 <= c < first.len(),
        0 <= j < first[c].len(),
        0 <= b < batches.len(),
        0 <= i < batches[b].len(),
        !batches[b][i].repair,
        shred_in(batches[b][i], sizes[b][i]) is Some,
        shred_in(batches[b][i], sizes[b][i]) == shred_in(first[c][j], first_sizes[c][j]),
    ensures
        batches_deduped(
            filter.shown_batches(first, first_sizes, first.len() as int),
            batches,
            sizes,
        )[b][i].discard,
{
    let later = filter.shown_batches(first, first_sizes, first.len() as int);
    lemma_shown_batches(filter, first, first_sizes, first.len() as int);
    assert(later.knows(shred_in(first[c][j], first_sizes[c][j])->0));
    if !batches_deduped(later, batches, sizes)[b][i].discard {
        kept_shreds_are_new(later, batches, sizes, b, i);
    }
}

/// What the filter is shown of a packet is its shred, whole and nothing else. Every packet that is
/// not marked, can be read and is at least as long as its shred has one. It has the length that was
/// told for it, and agrees with the packet at every position.
pub proof fn filter_is_shown_whole_shreds(packet: PacketView, size: Option<usize>)
    ensures
        shred_in(packet, size) is Some <==> !packet.discard && packet.bytes is Some && size is Some
            && size->0 <= packet.bytes->0.len(),
        shred_in(packet, size) matches Some(shred) ==> {
            &&& shred.len() == size->0
            &&& forall|j: int| 0 <= j < size->0 ==> #[trigger] shred[j] == packet.bytes->0[j]
        },
{
}

/// Two packets are shown to the filter as the same data if and only if their shreds have the same
/// size and agree at every position. So packets that differ anywhere in their shreds are shown as
/// different data, and what follows the shred makes no difference.
pub proof fn different_shreds_are_shown_as_different_data(
    left: PacketView,
    left_size: usize,
    right: PacketView,
    right_size: usize,
)
    requires
        !left.discard,
        !right.discard,
        left.bytes matches Some(bytes) && left_size <= bytes.len(),
        right.bytes matches Some(bytes) && right_size <= bytes.len(),
    ensures
        shred_in(left, Some(left_size)) == shred_in(right, Some(right_size)) <==> left_size
            == right_size && forall|j: int|
            0 <= j < left_size ==> #[trigger] left.bytes->0[j] == right.bytes->0[j],
{
    let shown = shred_in(left, Some(left_size))->0;
    let other = shred_in(right, Some(right_size))->0;
    filter_is_shown_whole_shreds(left, Some(left_size));
    filter_is_shown_whole_shreds(right, Some(right_size));
    if shown == other {
        assert forall|j: int| 0 <= j < left_size implies #[trigger] left.bytes->0[j]
            == right.bytes->0[j] by {
            assert(shown[j] == left.bytes->0[j]);
            assert(other[j] == right.bytes->0[j]);
        }
    } else if left_size == right_size {
        let j = choose|j: int| 0 <= j < left_size && shown[j] != other[j];
        if forall|j: int| 0 <= j < left_size ==> shown[j] == other[j] {
            assert(shown =~= other);
        }
        assert(shown[j] == left.bytes->0[j]);
        assert(other[j] == right.bytes->0[j]);
    }
}

/// A filter takes data for known if and only if each bit that it has for the data is set. Showing
/// it data sets those bits and no others, and changes nothing else.
pub proof fn filters_set_bits(
    deduper: Deduper<2, [u8]>,
    filter: FilterView,
    data: Seq<u8>,
    other: Seq<u8>,
    bit: u64,
)
    ensures
        filter_view(deduper).bits == set_bits(deduper),
        (filter_view(deduper).bits_of)(data) == bits_of(deduper, data),
        filter.knows(data) <==> forall|any: u64| #[trigger]
            (filter.bits_of)(data).contains(any) ==> filter.bits.contains(any),
        filter.shown(data).bits.contains(bit) <==> filter.bits.contains(bit) || (filter.bits_of)(
            data,
        ).contains(bit),
        (filter.shown(data).bits_of)(other) == (filter.bits_of)(other),
        filter.shown(data).knows(data),
{
}

/// Whether a bit belongs to a shred that comes before position `i` of batch `b`.
pub open spec fn bit_shown_before(
    filter: FilterView,
    batches: Seq<Seq<PacketView>>,
    sizes: Seq<Seq<Option<usize>>>,
    b: int,
    i: int,
    bit: u64,
) -> bool {
    exists|c: int, j: int|
        {
            &&& 0 <= c < batches.len()
            &&& 0 <= j < batches[c].len()
            &&& c < b || (c == b && j < i)
            &&& shred_in(#[trigger] batches[c][j], sizes[c][j]) matches Some(shred)
                && (filter.bits_of)(shred).contains(bit)
        }
}

proof fn lemma_bits_of_packets(
    filter: FilterView,
    packets: Seq<PacketView>,
    sizes: Seq<Option<usize>>,
    n: int,
    bit: u64,
)
    requires
        0 <= n <= packets.len(),
    ensures
        filter.shown_packets(packets, sizes, n).bits.contains(bit) <==> filter.bits.contains(bit)
            || exists|j: int|
            0 <= j < n && (shred_in(#[trigger] packets[j], sizes[j]) matches Some(shred) && (
            filter.bits_of)(shred).contains(bit)),
    decreases n,
{
    if n > 0 {
        lemma_bits_of_packets(filter, packets, sizes, n - 1, bit);
        lemma_shown_packets(filter, packets, sizes, n - 1);
        let last = packets[n - 1];
        assert(filter.shown_packets(packets, sizes, n).bits.contains(bit) == (filter.shown_packets(
            packets,
            sizes,
            n - 1,
        ).bits.contains(bit) || (shred_in(last, sizes[n - 1]) matches Some(shred) && (
        filter.bits_of)(shred).contains(bit))));
    }
}

proof fn lemma_bits_of_batches(
    filter: FilterView,
    batches: Seq<Seq<PacketView>>,
    sizes: Seq<Seq<Option<usize>>>,
    n: int,
    bit: u64,
)
    requires
        0 <= n <= batches.len(),
    ensures
        filter.shown_batches(batches, sizes, n).bits.contains(bit) <==> filter.bits.contains(bit)
            || bit_shown_before(filter, batches, sizes, n, 0, bit),
    decreases n,
{
    if n > 0 {
        let before = filter.shown_batches(batches, sizes, n - 1);
        let last = batches[n - 1];
        lemma_bits_of_batches(filter, batches, sizes, n - 1, bit);
        lemma_shown_batches(filter, batches, sizes, n - 1);
        lemma_bits_of_packets(before, last, sizes[n - 1], last.len() as int, bit);
        lemma_bits_step(filter, batches, sizes, n - 1, last.len() as int, bit);
        assert(bit_shown_before(filter, batches, sizes, n - 1, last.len() as int, bit)
            == bit_shown_before(filter, batches, sizes, n, 0, bit));
    }
}

/// The bits of what comes before position `i` of a batch are those of earlier batches and those of
/// the first `i` packets of that batch.
proof fn lemma_bits_step(
    filter: FilterView,
    batches: Seq<Seq<PacketView>>,
    sizes: Seq<Seq<Option<usize>>>,
    b: int,
    i: int,
    bit: u64,
)
    requires
        0 <= b < batches.len(),
        0 <= i <= batches[b].len(),
    ensures
        bit_shown_before(filter, batches, sizes, b, i, bit) <==> bit_shown_before(
            filter,
            batches,
            sizes,
            b,
            0,
            bit,
        ) || exists|j: int|
            0 <= j < i && (shred_in(#[trigger] batches[b][j], sizes[b][j]) matches Some(shred) && (
            filter.bits_of)(shred).contains(bit)),
{
    if bit_shown_before(filter, batches, sizes, b, i, bit) {
        let (c, j) = choose|c: int, j: int|
            {
                &&& 0 <= c < batches.len()
                &&& 0 <= j < batches[c].len()
                &&& c < b || (c == b && j < i)
                &&& shred_in(#[trigger] batches[c][j], sizes[c][j]) matches Some(shred)
                    && (filter.bits_of)(shred).contains(bit)
            };
        assert(shred_in(batches[c][j], sizes[c][j]) is Some);
    }
}

/// When the filter comes to a packet, a bit is set if and only if it was set to start with or
/// belongs to the shred of a packet before it. Over several batches, every packet comes before the
/// next batch.
pub proof fn filter_remembers_exactly_what_came_before(
    filter: FilterView,
    batches: Seq<Seq<PacketView>>,
    sizes: Seq<Seq<Option<usize>>>,
    b: int,
    i: int,
    bit: u64,
)
    requires
        0 <= b < batches.len(),
        0 <= i <= batches[b].len(),
    ensures
        filter.before_packet(batches, sizes, b, i).bits.contains(bit) <==> filter.bits.contains(bit)
            || bit_shown_before(filter, batches, sizes, b, i, bit),
        filter.before_packet(batches, sizes, b, i).bits_of == filter.bits_of,
        filter.shown_batches(batches, sizes, batches.len() as int).bits.contains(bit)
            <==> filter.bits.contains(bit) || bit_shown_before(
            filter,
            batches,
            sizes,
            batches.len() as int,
            0,
            bit,
        ),
        filter.shown_batches(batches, sizes, batches.len() as int).bits_of == filter.bits_of,
{
    let at_batch = filter.shown_batches(batches, sizes, b);
    lemma_bits_of_batches(filter, batches, sizes, b, bit);
    lemma_bits_of_batches(filter, batches, sizes, batches.len() as int, bit);
    lemma_shown_batches(filter, batches, sizes, b);
    lemma_shown_batches(filter, batches, sizes, batches.len() as int);
    lemma_shown_packets(at_batch, batches[b], sizes[b], i);
    lemma_bits_of_packets(at_batch, batches[b], sizes[b], i, bit);
    lemma_bits_step(filter, batches, sizes, b, i, bit);
}

/// There is a report for each packet. It says of the shred in the packet whether each of its bits
/// was set when the filter came to it; without a shred it says nothing.
pub proof fn reports_follow_the_filter(
    filter: FilterView,
    batches: Seq<Seq<PacketView>>,
    sizes: Seq<Seq<Option<usize>>>,
    b: int,
    i: int,
)
    requires
        0 <= b < batches.len(),
        0 <= i < batches[b].len(),
    ensures
        all_reports(filter, batches, sizes).len() == batches.len(),
        all_reports(filter, batches, sizes)[b].len() == batches[b].len(),
        all_reports(filter, batches, sizes)[b][i] is None <==> shred_in(
            batches[b][i],
            sizes[b][i],
        ) is None,
        shred_in(batches[b][i], sizes[b][i]) matches Some(shred) ==> (all_reports(
            filter,
            batches,
            sizes,
        )[b][i] == Some(true) <==> forall|bit: u64| #[trigger]
            (filter.bits_of)(shred).contains(bit) ==> filter.bits.contains(bit) || bit_shown_before(
                filter,
                batches,
                sizes,
                b,
                i,
                bit,
            )),
{
    let at_packet = filter.before_packet(batches, sizes, b, i);
    filter_remembers_exactly_what_came_before(filter, batches, sizes, b, i, 0);
    assert forall|bit: u64| #[trigger]
        at_packet.bits.contains(bit) == (filter.bits.contains(bit) || bit_shown_before(
            filter,
            batches,
            sizes,
            b,
            i,
            bit,
        )) by {
        filter_remembers_exactly_what_came_before(filter, batches, sizes, b, i, bit);
    }
    if let Some(shred) = shred_in(batches[b][i], sizes[b][i]) {
        assert(all_reports(filter, batches, sizes)[b][i] == Some(at_packet.knows(shred)));
        if at_packet.knows(shred) {
            assert forall|bit: u64| #[trigger]
                (filter.bits_of)(shred).contains(bit) implies filter.bits.contains(bit)
                || bit_shown_before(filter, batches, sizes, b, i, bit) by {
                assert(at_packet.bits.contains(bit));
            }
        } else {
            let bit = choose|bit: u64|
                (filter.bits_of)(shred).contains(bit) && !at_packet.bits.contains(bit);
            assert((filter.bits_of)(shred).contains(bit) && !at_packet.bits.contains(bit));
        }
    }
}

/// Whatever the reports are, a packet is newly marked if and only if it answers no repair request
/// and its report is not that its shred is new. Nothing else about packets changes, and none goes
/// missing.
pub proof fn marks_follow_the_reports(
    batches: Seq<Seq<PacketView>>,
    reports: Seq<Seq<Option<bool>>>,
    b: int,
    i: int,
)
    requires
        same_shape(batches, reports),
        0 <= b < batches.len(),
        0 <= i < batches[b].len(),
    ensures
        ({
            let marked = batches_marked(batches, reports);
            &&& marked.len() == batches.len()
            &&& marked[b].len() == batches[b].len()
            &&& marked[b][i].discard <==> batches[b][i].discard || (!batches[b][i].repair && (
            reports[b][i] is None || reports[b][i] == Some(true)))
            &&& marked[b][i].bytes == batches[b][i].bytes
            &&& marked[b][i].repair == batches[b][i].repair
            &&& marked[b][i].shared == batches[b][i].shared
        }),
{
    if let Some(known) = reports[b][i] {
        assert(reports[b][i] == Some(known));
    }
}

/// The rows of a table are viewed one by one.
pub proof fn rows_are_viewed_one_by_one<T>(rows: Seq<Vec<T>>, b: int)
    requires
        0 <= b < rows.len(),
    ensures
        inner_views(rows).len() == rows.len(),
        inner_views(rows)[b] == rows[b]@,
{
}

} // verus!
