//! Finding the leaders whose signatures the shreds have to carry.

use crate::bytes::{same_bytes, Pubkey};
use crate::counting::positions;
use crate::deduper::{inner_views, same_shape};
use crate::packets::{
    batch_len, batch_packets, batch_views, packet_discard, set_packet_discard, PacketView,
};
use solana_perf::packet::PacketBatch;
use std::collections::HashMap;
use vstd::prelude::*;

verus! {

broadcast use vstd::std_specs::hash::group_hash_axioms;

/// The leader whose signature a shred of `slot` has to carry: the one that the schedule names,
/// unless it is this node, which receives no shreds of its own.
pub open spec fn leader_of(schedule: Map<u64, Pubkey>, self_pubkey: Pubkey, slot: u64) -> Option<
    Pubkey,
> {
    if schedule.contains_key(slot) && schedule[slot] != self_pubkey {
        Some(schedule[slot])
    } else {
        None
    }
}

/// Whether a packet holds a shred of a slot that has no such leader.
pub open spec fn lacks_leader(
    schedule: Map<u64, Pubkey>,
    self_pubkey: Pubkey,
    slot: Option<u64>,
) -> bool {
    slot matches Some(slot) && leader_of(schedule, self_pubkey, slot) is None
}

/// The packets of a batch, with those marked whose slots have no leader other than this node.
/// Packets whose slot cannot be told are left alone.
pub open spec fn leaderless_marked(
    schedule: Map<u64, Pubkey>,
    self_pubkey: Pubkey,
    packets: Seq<PacketView>,
    slots: Seq<Option<u64>>,
) -> Seq<PacketView> {
    Seq::new(
        packets.len(),
        |i: int|
            if lacks_leader(schedule, self_pubkey, slots[i]) {
                packets[i].discarded()
            } else {
                packets[i]
            },
    )
}

/// The slots of the first `n` packets of a batch, with their leaders. Packets that are marked for
/// discard or whose slot cannot be told are omitted.
pub open spec fn batch_leaders(
    schedule: Map<u64, Pubkey>,
    self_pubkey: Pubkey,
    packets: Seq<PacketView>,
    slots: Seq<Option<u64>>,
    n: nat,
) -> Seq<(u64, Option<Pubkey>)>
    decreases n,
{
    if n == 0 {
        Seq::empty()
    } else {
        let first = batch_leaders(schedule, self_pubkey, packets, slots, (n - 1) as nat);
        match slots[n - 1] {
            Some(slot) if !packets[n - 1].discard => first.push(
                (slot, leader_of(schedule, self_pubkey, slot)),
            ),
            _ => first,
        }
    }
}

/// The slots of the packets in the first `n` batches, with their leaders.
pub open spec fn leaders_of_batches(
    schedule: Map<u64, Pubkey>,
    self_pubkey: Pubkey,
    batches: Seq<Seq<PacketView>>,
    slots: Seq<Seq<Option<u64>>>,
    n: nat,
) -> Seq<(u64, Option<Pubkey>)>
    decreases n,
{
    if n == 0 {
        Seq::empty()
    } else {
        leaders_of_batches(schedule, self_pubkey, batches, slots, (n - 1) as nat) + batch_leaders(
            schedule,
            self_pubkey,
            batches[n - 1],
            slots[n - 1],
            batches[n - 1].len(),
        )
    }
}

/// Several batches, with the packets marked whose slots have no leader other than this node.
pub open spec fn leaderless_batches_marked(
    schedule: Map<u64, Pubkey>,
    self_pubkey: Pubkey,
    batches: Seq<Seq<PacketView>>,
    slots: Seq<Seq<Option<u64>>>,
) -> Seq<Seq<PacketView>> {
    Seq::new(
        batches.len(),
        |b: int| leaderless_marked(schedule, self_pubkey, batches[b], slots[b]),
    )
}

/// Looks up the leader of a slot.
fn find_leader(self_pubkey: &Pubkey, schedule: &HashMap<u64, Pubkey>, slot: u64) -> (leader: Option<
    Pubkey,
>)
    ensures
        leader == leader_of(schedule@, *self_pubkey, slot),
{
    match schedule.get(&slot) {
        Some(leader) => {
            if same_bytes(leader, self_pubkey) {
                None
            } else {
                Some(*leader)
            }
        },
        None => None,
    }
}

/// The slots of one batch, with their leaders; marks the packets that have none.
fn get_batch_leaders(
    self_pubkey: &Pubkey,
    batch: &mut PacketBatch,
    slots: &Vec<Option<u64>>,
    schedule: &HashMap<u64, Pubkey>,
) -> (leaders: Vec<(u64, Option<Pubkey>)>)
    requires
        slots@.len() == batch_packets(*old(batch)).len(),
    ensures
        batch_packets(*final(batch)) == leaderless_marked(
            schedule@,
            *self_pubkey,
            batch_packets(*old(batch)),
            slots@,
        ),
        leaders@ == batch_leaders(
            schedule@,
            *self_pubkey,
            batch_packets(*old(batch)),
            slots@,
            slots@.len(),
        ),
{
    let ghost before = batch_packets(*batch);
    let ghost marked = leaderless_marked(schedule@, *self_pubkey, before, slots@);
    let len: usize = batch_len(batch);
    let mut leaders: Vec<(u64, Option<Pubkey>)> = Vec::new();
    for index in 0..len
        invariant
            len == before.len(),
            slots@.len() == len,
            marked == leaderless_marked(schedule@, *self_pubkey, before, slots@),
            batch_packets(*batch) == marked.take(index as int) + before.skip(index as int),
            leaders@ == batch_leaders(schedule@, *self_pubkey, before, slots@, index as nat),
    {
        assert(batch_packets(*batch)[index as int] == before[index as int]);
        if !packet_discard(batch, index) {
            if let Some(slot) = slots[index] {
                let leader = find_leader(self_pubkey, schedule, slot);
                if leader.is_none() {
                    set_packet_discard(batch, index);
                }
                leaders.push((slot, leader));
            }
        }
        assert(batch_packets(*batch) =~= marked.take(index + 1) + before.skip(index + 1));
    }
    assert(marked.take(len as int) + before.skip(len as int) =~= marked);
    leaders
}

/// The slots of the packets, with their leaders, in order. Packets with an unknown leader or this
/// node as leader are marked for discard. Packets whose slot cannot be told are omitted. `slots`
/// holds the slot of the shred in each packet, and `schedule` the leaders of those slots, as far
/// as they are known.
pub fn get_slot_leaders(
    self_pubkey: &Pubkey,
    batches: &mut Vec<PacketBatch>,
    slots: &[Vec<Option<u64>>],
    schedule: &HashMap<u64, Pubkey>,
) -> (leaders: Vec<(u64, Option<Pubkey>)>)
    requires
        same_shape(batch_views(old(batches)@), inner_views(slots@)),
    ensures
        batch_views(final(batches)@) == leaderless_batches_marked(
            schedule@,
            *self_pubkey,
            batch_views(old(batches)@),
            inner_views(slots@),
        ),
        leaders@ == leaders_of_batches(
            schedule@,
            *self_pubkey,
            batch_views(old(batches)@),
            inner_views(slots@),
            old(batches)@.len(),
        ),
{
    let ghost before = batch_views(batches@);
    let ghost rows = inner_views(slots@);
    let ghost marked = leaderless_batches_marked(schedule@, *self_pubkey, before, rows);
    let mut leaders: Vec<(u64, Option<Pubkey>)> = Vec::new();
    let num_batches: usize = batches.len();
    assert(before =~= marked.take(0) + before.skip(0));
    for index in 0..num_batches
        invariant
            num_batches == before.len(),
            batches@.len() == before.len(),
            rows == inner_views(slots@),
            same_shape(before, rows),
            marked == leaderless_batches_marked(schedule@, *self_pubkey, before, rows),
            batch_views(batches@) == marked.take(index as int) + before.skip(index as int),
            leaders@ == leaders_of_batches(
                schedule@,
                *self_pubkey,
                before,
                rows,
                index as nat,
            ),
    {
        let ghost current = batch_views(batches@);
        assert(current[index as int] == before[index as int]);
        assert(rows[index as int] == slots@[index as int]@);
        let mut in_batch = get_batch_leaders(
            self_pubkey,
            &mut batches[index],
            &slots[index],
            schedule,
        );
        leaders.append(&mut in_batch);
        proof {
            assert(batch_views(batches@) =~= current.update(index as int, marked[index as int]));
            assert(batch_views(batches@) =~= marked.take(index + 1) + before.skip(index + 1));
        }
    }
    assert(marked.take(before.len() as int) + before.skip(before.len() as int) =~= marked);
    leaders
}

/// The leader of each slot, among the first `n` of a list of slots with their leaders. Slots
/// without a leader are left out.
pub open spec fn known_leaders(leaders: Seq<(u64, Option<Pubkey>)>, n: nat) -> Map<u64, Pubkey>
    decreases n,
{
    if n == 0 {
        Map::empty()
    } else {
        let first = known_leaders(leaders, (n - 1) as nat);
        match leaders[n - 1].1 {
            Some(leader) => first.insert(leaders[n - 1].0, leader),
            None => first,
        }
    }
}

/// The default public key: all bytes are zero.
pub open spec fn is_default_pubkey(pubkey: Pubkey) -> bool {
    forall|i: int| 0 <= i < 32 ==> pubkey@[i] == 0
}

/// Collects the known leaders by slot. The last slot of all gets the default public key.
pub fn collect_slot_pubkeys(leaders: &Vec<(u64, Option<Pubkey>)>) -> (slot_pubkeys: HashMap<
    u64,
    Pubkey,
>)
    ensures
        slot_pubkeys@.remove(u64::MAX) == known_leaders(leaders@, leaders@.len()).remove(u64::MAX),
        slot_pubkeys@.contains_key(u64::MAX),
        is_default_pubkey(slot_pubkeys@[u64::MAX]),
{
    let mut slot_pubkeys: HashMap<u64, Pubkey> = HashMap::new();
    for index in 0..leaders.len()
        invariant
            slot_pubkeys@ == known_leaders(leaders@, index as nat),
    {
        let (slot, leader) = leaders[index];
        if let Some(leader) = leader {
            slot_pubkeys.insert(slot, leader);
        }
    }
    slot_pubkeys.insert(u64::MAX, [0u8; 32]);
    assert(slot_pubkeys@.remove(u64::MAX) =~= known_leaders(leaders@, leaders@.len()).remove(
        u64::MAX,
    ));
    slot_pubkeys
}

/// Whether a packet with a shred of `slot` is among the first `n` packets and not marked.
pub open spec fn batch_has_slot(
    packets: Seq<PacketView>,
    slots: Seq<Option<u64>>,
    n: nat,
    slot: u64,
) -> bool {
    exists|i: int| 0 <= i < n && !(#[trigger] packets[i]).discard && slots[i] == Some(slot)
}

/// Whether a packet with a shred of `slot` is in one of the first `n` batches and not marked.
pub open spec fn batches_have_slot(
    batches: Seq<Seq<PacketView>>,
    slots: Seq<Seq<Option<u64>>>,
    n: nat,
    slot: u64,
) -> bool {
    exists|b: int|
        0 <= b < n && #[trigger] batch_has_slot(batches[b], slots[b], batches[b].len(), slot)
}

/// Whether a list names `slot`.
spec fn lists_slot(leaders: Seq<(u64, Option<Pubkey>)>, slot: u64) -> bool {
    exists|k: int| 0 <= k < leaders.len() && (#[trigger] leaders[k]).0 == slot
}

/// Each slot of a list comes with its leader.
spec fn leaders_match(
    schedule: Map<u64, Pubkey>,
    self_pubkey: Pubkey,
    leaders: Seq<(u64, Option<Pubkey>)>,
) -> bool {
    forall|k: int|
        0 <= k < leaders.len() ==> (#[trigger] leaders[k]).1 == leader_of(
            schedule,
            self_pubkey,
            leaders[k].0,
        )
}

proof fn lemma_batch_leaders(
    schedule: Map<u64, Pubkey>,
    self_pubkey: Pubkey,
    packets: Seq<PacketView>,
    slots: Seq<Option<u64>>,
    n: nat,
    slot: u64,
)
    requires
        n <= packets.len(),
        n <= slots.len(),
    ensures
        leaders_match(
            schedule,
            self_pubkey,
            batch_leaders(schedule, self_pubkey, packets, slots, n),
        ),
        lists_slot(batch_leaders(schedule, self_pubkey, packets, slots, n), slot)
            == batch_has_slot(packets, slots, n, slot),
    decreases n,
{
    if n > 0 {
        let first = batch_leaders(schedule, self_pubkey, packets, slots, (n - 1) as nat);
        let all = batch_leaders(schedule, self_pubkey, packets, slots, n);
        lemma_batch_leaders(schedule, self_pubkey, packets, slots, (n - 1) as nat, slot);
        if lists_slot(first, slot) {
            let k = choose|k: int| 0 <= k < first.len() && (#[trigger] first[k]).0 == slot;
            assert(all[k].0 == slot);
        }
        if !packets[n - 1].discard && slots[n - 1] == Some(slot) {
            assert(all[first.len() as int].0 == slot);
        }
        if lists_slot(all, slot) && !lists_slot(first, slot) {
            let k = choose|k: int| 0 <= k < all.len() && (#[trigger] all[k]).0 == slot;
            assert(k < first.len() ==> first[k].0 == slot);
            assert(!packets[n - 1].discard && slots[n - 1] == Some(slot));
        }
    }
}

proof fn lemma_leaders_of_batches(
    schedule: Map<u64, Pubkey>,
    self_pubkey: Pubkey,
    batches: Seq<Seq<PacketView>>,
    slots: Seq<Seq<Option<u64>>>,
    n: nat,
    slot: u64,
)
    requires
        same_shape(batches, slots),
        n <= batches.len(),
    ensures
        leaders_match(
            schedule,
            self_pubkey,
            leaders_of_batches(schedule, self_pubkey, batches, slots, n),
        ),
        lists_slot(leaders_of_batches(schedule, self_pubkey, batches, slots, n), slot)
            == batches_have_slot(batches, slots, n, slot),
    decreases n,
{
    if n > 0 {
        let first = leaders_of_batches(schedule, self_pubkey, batches, slots, (n - 1) as nat);
        let last = batch_leaders(
            schedule,
            self_pubkey,
            batches[n - 1],
            slots[n - 1],
            batches[n - 1].len(),
        );
        let all = leaders_of_batches(schedule, self_pubkey, batches, slots, n);
        lemma_leaders_of_batches(schedule, self_pubkey, batches, slots, (n - 1) as nat, slot);
        lemma_batch_leaders(
            schedule,
            self_pubkey,
            batches[n - 1],
            slots[n - 1],
            batches[n - 1].len(),
            slot,
        );
        assert forall|k: int| 0 <= k < all.len() implies (#[trigger] all[k]).1 == leader_of(
            schedule,
            self_pubkey,
            all[k].0,
        ) by {
            if k < first.len() {
                assert(first[k] == all[k]);
            } else {
                assert(last[k - first.len()] == all[k]);
            }
        }
        if lists_slot(first, slot) {
            let k = choose|k: int| 0 <= k < first.len() && (#[trigger] first[k]).0 == slot;
            assert(all[k].0 == slot);
        }
        if lists_slot(last, slot) {
            let k = choose|k: int| 0 <= k < last.len() && (#[trigger] last[k]).0 == slot;
            assert(all[first.len() + k].0 == slot);
        }
        if lists_slot(all, slot) {
            let k = choose|k: int| 0 <= k < all.len() && (#[trigger] all[k]).0 == slot;
            if k < first.len() {
                assert(first[k].0 == slot);
            } else {
                assert(last[k - first.len()].0 == slot);
            }
        }
    }
}

proof fn lemma_known_leaders(
    schedule: Map<u64, Pubkey>,
    self_pubkey: Pubkey,
    leaders: Seq<(u64, Option<Pubkey>)>,
    n: nat,
    slot: u64,
)
    requires
        n <= leaders.len(),
        leaders_match(schedule, self_pubkey, leaders),
    ensures
        known_leaders(leaders, n).contains_key(slot) <==> (exists|k: int|
            0 <= k < n && (#[trigger] leaders[k]).0 == slot) && leader_of(
            schedule,
            self_pubkey,
            slot,
        ) is Some,
        known_leaders(leaders, n).contains_key(slot) ==> leader_of(schedule, self_pubkey, slot)
            == Some(known_leaders(leaders, n)[slot]),
    decreases n,
{
    if n > 0 {
        lemma_known_leaders(schedule, self_pubkey, leaders, (n - 1) as nat, slot);
        assert(leaders[n - 1].1 == leader_of(schedule, self_pubkey, leaders[n - 1].0));
    }
}

/// The leaders that are collected are those of the slots of the packets that are kept: each is the
/// one that the schedule names, and none is this node.
pub proof fn collected_leaders_are_those_of_kept_packets(
    schedule: Map<u64, Pubkey>,
    self_pubkey: Pubkey,
    batches: Seq<Seq<PacketView>>,
    slots: Seq<Seq<Option<u64>>>,
    slot: u64,
)
    requires
        same_shape(batches, slots),
    ensures
        ({
            let leaders = leaders_of_batches(
                schedule,
                self_pubkey,
                batches,
                slots,
                batches.len(),
            );
            let known = known_leaders(leaders, leaders.len());
            let kept = leaderless_batches_marked(schedule, self_pubkey, batches, slots);
            &&& known.contains_key(slot) <==> batches_have_slot(kept, slots, kept.len(), slot)
            &&& known.contains_key(slot) ==> {
                &&& schedule.contains_key(slot)
                &&& known[slot] == schedule[slot]
                &&& known[slot] != self_pubkey
            }
        }),
{
    let leaders = leaders_of_batches(schedule, self_pubkey, batches, slots, batches.len());
    let known = known_leaders(leaders, leaders.len());
    let kept = leaderless_batches_marked(schedule, self_pubkey, batches, slots);
    lemma_leaders_of_batches(schedule, self_pubkey, batches, slots, batches.len(), slot);
    lemma_known_leaders(schedule, self_pubkey, leaders, leaders.len(), slot);
    if batches_have_slot(kept, slots, kept.len(), slot) {
        let b = choose|b: int|
            0 <= b < kept.len() && #[trigger] batch_has_slot(
                kept[b],
                slots[b],
                kept[b].len(),
                slot,
            );
        let i = choose|i: int|
            0 <= i < kept[b].len() && !(#[trigger] kept[b][i]).discard && slots[b][i] == Some(slot);
        assert(!batches[b][i].discard);
        assert(batch_has_slot(batches[b], slots[b], batches[b].len(), slot));
    }
    if known.contains_key(slot) {
        let b = choose|b: int|
            0 <= b < batches.len() && #[trigger] batch_has_slot(
                batches[b],
                slots[b],
                batches[b].len(),
                slot,
            );
        let i = choose|i: int|
            0 <= i < batches[b].len() && !(#[trigger] batches[b][i]).discard && slots[b][i] == Some(
                slot,
            );
        assert(!kept[b][i].discard);
        assert(batch_has_slot(kept[b], slots[b], kept[b].len(), slot));
    }
}

/// Packets are only ever marked, never unmarked, and nothing else about them changes.
pub proof fn finding_leaders_only_marks(
    schedule: Map<u64, Pubkey>,
    self_pubkey: Pubkey,
    batches: Seq<Seq<PacketView>>,
    slots: Seq<Seq<Option<u64>>>,
    b: int,
    i: int,
)
    requires
        0 <= b < batches.len(),
        0 <= i < batches[b].len(),
    ensures
        ({
            let marked = leaderless_batches_marked(schedule, self_pubkey, batches, slots);
            &&& marked[b][i] == batches[b][i] || marked[b][i] == batches[b][i].discarded()
            &&& batches[b][i].discard ==> marked[b][i].discard
        }),
{
}

/// A slot has a leader if and only if the schedule names one for it that is not this node, and it
/// is that one.
pub proof fn leaders_are_other_nodes(
    schedule: Map<u64, Pubkey>,
    self_pubkey: Pubkey,
    slot: u64,
    leader: Pubkey,
)
    ensures
        leader_of(schedule, self_pubkey, slot) == Some(leader) <==> schedule.contains_key(slot)
            && schedule[slot] == leader && leader != self_pubkey,
{
}

/// A packet is marked if and only if it was marked before, or its slot can be told and the schedule
/// names no leader for it or names this node. Nothing else about packets changes, and none goes
/// missing.
pub proof fn packets_without_a_leader_are_marked(
    schedule: Map<u64, Pubkey>,
    self_pubkey: Pubkey,
    batches: Seq<Seq<PacketView>>,
    slots: Seq<Seq<Option<u64>>>,
    b: int,
    i: int,
)
    requires
        same_shape(batches, slots),
        0 <= b < batches.len(),
        0 <= i < batches[b].len(),
    ensures
        ({
            let marked = leaderless_batches_marked(schedule, self_pubkey, batches, slots);
            &&& marked.len() == batches.len()
            &&& marked[b].len() == batches[b].len()
            &&& marked[b][i].discard <==> batches[b][i].discard || (slots[b][i] matches Some(slot)
                && (!schedule.contains_key(slot) || schedule[slot] == self_pubkey))
            &&& marked[b][i].bytes == batches[b][i].bytes
            &&& marked[b][i].repair == batches[b][i].repair
            &&& marked[b][i].shared == batches[b][i].shared
        }),
{
}

/// The slots of a batch are listed in the order of its packets, once for each packet that is not
/// marked and whose slot can be told, each with its leader.
pub proof fn slots_are_listed_in_order(
    schedule: Map<u64, Pubkey>,
    self_pubkey: Pubkey,
    packets: Seq<PacketView>,
    slots: Seq<Option<u64>>,
    n: nat,
)
    ensures
        ({
            let listed = batch_leaders(schedule, self_pubkey, packets, slots, n);
            let at = positions(n, |i: int| !packets[i].discard && slots[i] is Some);
            &&& listed.len() == at.len()
            &&& forall|k: int|
                0 <= k < listed.len() ==> {
                    &&& slots[at[k]] == Some((#[trigger] listed[k]).0)
                    &&& listed[k].1 == leader_of(schedule, self_pubkey, listed[k].0)
                }
        }),
    decreases n,
{
    if n > 0 {
        slots_are_listed_in_order(schedule, self_pubkey, packets, slots, (n - 1) as nat);
    }
}

proof fn lemma_batch_leaders_concat(
    schedule: Map<u64, Pubkey>,
    self_pubkey: Pubkey,
    left: Seq<PacketView>,
    left_slots: Seq<Option<u64>>,
    right: Seq<PacketView>,
    right_slots: Seq<Option<u64>>,
    n: nat,
)
    requires
        left.len() == left_slots.len(),
        n <= left.len() + right.len(),
        right.len() == right_slots.len(),
    ensures
        batch_leaders(schedule, self_pubkey, left + right, left_slots + right_slots, n) == if n
            <= left.len() {
            batch_leaders(schedule, self_pubkey, left, left_slots, n)
        } else {
            batch_leaders(schedule, self_pubkey, left, left_slots, left.len()) + batch_leaders(
                schedule,
                self_pubkey,
                right,
                right_slots,
                (n - left.len()) as nat,
            )
        },
    decreases n,
{
    if n > 0 {
        lemma_batch_leaders_concat(
            schedule,
            self_pubkey,
            left,
            left_slots,
            right,
            right_slots,
            (n - 1) as nat,
        );
        let first = batch_leaders(schedule, self_pubkey, left, left_slots, left.len());
        if n > left.len() {
            let m = (n - left.len()) as nat;
            let rest = batch_leaders(schedule, self_pubkey, right, right_slots, (m - 1) as nat);
            if m == 1 {
                assert(first + rest =~= first);
            }
            assert(batch_leaders(
                schedule,
                self_pubkey,
                left + right,
                left_slots + right_slots,
                (n - 1) as nat,
            ) == first + rest);
            assert((left + right)[n - 1] == right[m - 1]);
            assert((left_slots + right_slots)[n - 1] == right_slots[m - 1]);
            assert(batch_leaders(schedule, self_pubkey, left + right, left_slots + right_slots, n)
                =~= first + batch_leaders(schedule, self_pubkey, right, right_slots, m));
        }
    }
}

/// How packets are grouped into batches makes no difference to the slots that are listed: they are
/// those of one batch with all of the packets.
pub proof fn grouping_of_slots_does_not_count(
    schedule: Map<u64, Pubkey>,
    self_pubkey: Pubkey,
    batches: Seq<Seq<PacketView>>,
    slots: Seq<Seq<Option<u64>>>,
)
    requires
        same_shape(batches, slots),
    ensures
        slots.flatten().len() == batches.flatten().len(),
        leaders_of_batches(schedule, self_pubkey, batches, slots, batches.len()) == batch_leaders(
            schedule,
            self_pubkey,
            batches.flatten(),
            slots.flatten(),
            batches.flatten().len(),
        ),
{
    lemma_leaders_flattened(schedule, self_pubkey, batches, slots);
    batches.lemma_flatten_and_flatten_alt_are_equivalent();
    slots.lemma_flatten_and_flatten_alt_are_equivalent();
}

proof fn lemma_leaders_prefix(
    schedule: Map<u64, Pubkey>,
    self_pubkey: Pubkey,
    batches: Seq<Seq<PacketView>>,
    slots: Seq<Seq<Option<u64>>>,
    n: nat,
)
    requires
        n < batches.len(),
        slots.len() == batches.len(),
    ensures
        leaders_of_batches(schedule, self_pubkey, batches, slots, n) == leaders_of_batches(
            schedule,
            self_pubkey,
            batches.drop_last(),
            slots.drop_last(),
            n,
        ),
    decreases n,
{
    if n > 0 {
        lemma_leaders_prefix(schedule, self_pubkey, batches, slots, (n - 1) as nat);
    }
}

proof fn lemma_leaders_flattened(
    schedule: Map<u64, Pubkey>,
    self_pubkey: Pubkey,
    batches: Seq<Seq<PacketView>>,
    slots: Seq<Seq<Option<u64>>>,
)
    requires
        same_shape(batches, slots),
    ensures
        slots.flatten_alt().len() == batches.flatten_alt().len(),
        leaders_of_batches(schedule, self_pubkey, batches, slots, batches.len()) == batch_leaders(
            schedule,
            self_pubkey,
            batches.flatten_alt(),
            slots.flatten_alt(),
            batches.flatten_alt().len(),
        ),
    decreases batches.len(),
{
    if batches.len() > 0 {
        let shorter = batches.drop_last();
        let shorter_slots = slots.drop_last();
        let n = batches.len() - 1;
        assert(slots[n].len() == batches[n].len());
        assert(same_shape(shorter, shorter_slots)) by {
            assert forall|b: int| 0 <= b < shorter.len() implies (
            #[trigger] shorter_slots[b]).len() == shorter[b].len() by {
                assert(slots[b].len() == batches[b].len());
            }
        }
        lemma_leaders_flattened(schedule, self_pubkey, shorter, shorter_slots);
        lemma_leaders_prefix(schedule, self_pubkey, batches, slots, n as nat);
        lemma_batch_leaders_concat(
            schedule,
            self_pubkey,
            shorter.flatten_alt(),
            shorter_slots.flatten_alt(),
            batches[n],
            slots[n],
            shorter.flatten_alt().len() + batches[n].len(),
        );
        let before = leaders_of_batches(schedule, self_pubkey, batches, slots, n as nat);
        assert(before + Seq::<(u64, Option<Pubkey>)>::empty() =~= before);
    }
}

/// A slot is collected if and only if it is listed with a leader, and with the leader that is
/// listed last for it.
pub proof fn last_listed_leader_is_collected(
    leaders: Seq<(u64, Option<Pubkey>)>,
    n: nat,
    slot: u64,
)
    requires
        n <= leaders.len(),
    ensures
        known_leaders(leaders, n).contains_key(slot) <==> exists|k: int|
            0 <= k < n && (#[trigger] leaders[k]).0 == slot && leaders[k].1 is Some,
        forall|k: int|
            0 <= k < n && (#[trigger] leaders[k]).0 == slot && leaders[k].1 is Some && (forall|j:
                int|
                k < j < n ==> (#[trigger] leaders[j]).0 != slot || leaders[j].1 is None)
                ==> known_leaders(leaders, n)[slot] == leaders[k].1->0,
    decreases n,
{
    if n > 0 {
        let m = (n - 1) as nat;
        last_listed_leader_is_collected(leaders, m, slot);
        let before = known_leaders(leaders, m);
        let after = known_leaders(leaders, n);
        if leaders[m as int].0 == slot && leaders[m as int].1 is Some {
            assert(after[slot] == leaders[m as int].1->0);
            assert forall|k: int|
                0 <= k < n && (#[trigger] leaders[k]).0 == slot && leaders[k].1 is Some && (forall|
                    j: int,
                |
                    k < j < n ==> (#[trigger] leaders[j]).0 != slot
                        || leaders[j].1 is None) implies after[slot] == leaders[k].1->0 by {
                assert(k < m ==> leaders[m as int].0 != slot || leaders[m as int].1 is None);
            }
        } else {
            assert(after.contains_key(slot) == before.contains_key(slot));
            assert forall|k: int|
                0 <= k < n && (#[trigger] leaders[k]).0 == slot && leaders[k].1 is Some && (forall|
                    j: int,
                |
                    k < j < n ==> (#[trigger] leaders[j]).0 != slot
                        || leaders[j].1 is None) implies after[slot] == leaders[k].1->0 by {
                assert(k < m);
                assert(forall|j: int|
                    k < j < m ==> (#[trigger] leaders[j]).0 != slot || leaders[j].1 is None);
                assert(before[slot] == leaders[k].1->0);
            }
        }
    }
}

} // verus!
