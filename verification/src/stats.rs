//! Counters of what signature verification did.

use std::time::{Duration, Instant};
use vstd::prelude::*;

verus! {

/// A point in time.
#[verifier::external_type_specification]
#[verifier::external_body]
pub struct ExInstant(Instant);

/// `Instant::now` depends on the clock; nothing is claimed of its result.
pub assume_specification[ Instant::now ]() -> Instant
;

/// `Instant::elapsed` depends on the clock; nothing is claimed of its result.
pub assume_specification[ Instant::elapsed ](instant: &Instant) -> Duration
;

/// `Duration::as_nanos`: the length of a span of time. Spans come from the clock only; nothing is
/// claimed of the result.
pub assume_specification[ Duration::as_nanos ](duration: &Duration) -> u128
;

/// What a worker counted while it verified packets.
pub struct SigverifyWorkerStats {
    /// Shreds whose leader signature was checked.
    pub num_verify_calls: usize,
    /// Shreds whose leader signature was wrong.
    pub num_verify_failed: usize,
    /// Packets that came in marked for discard, or whose leader signature was wrong.
    pub num_discards_post: usize,
    /// Shreds whose retransmitter signature was wrong.
    pub num_invalid_retransmitter: usize,
    /// Shreds that need no retransmitter signature.
    pub num_retranmitter_signature_skipped: usize,
    /// Shreds whose retransmitter signature was right.
    pub num_retranmitter_signature_verified: usize,
    /// Shreds of slots whose leader is unknown.
    pub num_unknown_slot_leader: usize,
    /// Shreds whose turbine parent is unknown.
    pub num_unknown_turbine_parent: usize,
}

impl SigverifyWorkerStats {
    /// All counters are zero.
    pub open spec fn zero() -> SigverifyWorkerStats {
        SigverifyWorkerStats {
            num_verify_calls: 0,
            num_verify_failed: 0,
            num_discards_post: 0,
            num_invalid_retransmitter: 0,
            num_retranmitter_signature_skipped: 0,
            num_retranmitter_signature_verified: 0,
            num_unknown_slot_leader: 0,
            num_unknown_turbine_parent: 0,
        }
    }

    /// The sum of two counts.
    pub open spec fn plus(self, other: SigverifyWorkerStats) -> SigverifyWorkerStats {
        SigverifyWorkerStats {
            num_verify_calls: (self.num_verify_calls + other.num_verify_calls) as usize,
            num_verify_failed: (self.num_verify_failed + other.num_verify_failed) as usize,
            num_discards_post: (self.num_discards_post + other.num_discards_post) as usize,
            num_invalid_retransmitter: (self.num_invalid_retransmitter
                + other.num_invalid_retransmitter) as usize,
            num_retranmitter_signature_skipped: (self.num_retranmitter_signature_skipped
                + other.num_retranmitter_signature_skipped) as usize,
            num_retranmitter_signature_verified: (self.num_retranmitter_signature_verified
                + other.num_retranmitter_signature_verified) as usize,
            num_unknown_slot_leader: (self.num_unknown_slot_leader
                + other.num_unknown_slot_leader) as usize,
            num_unknown_turbine_parent: (self.num_unknown_turbine_parent
                + other.num_unknown_turbine_parent) as usize,
        }
    }

    /// The counters can be added up without overflow.
    pub open spec fn can_add(self, other: SigverifyWorkerStats) -> bool {
        &&& self.num_verify_calls + other.num_verify_calls <= usize::MAX
        &&& self.num_verify_failed + other.num_verify_failed <= usize::MAX
        &&& self.num_discards_post + other.num_discards_post <= usize::MAX
        &&& self.num_invalid_retransmitter + other.num_invalid_retransmitter <= usize::MAX
        &&& self.num_retranmitter_signature_skipped + other.num_retranmitter_signature_skipped
            <= usize::MAX
        &&& self.num_retranmitter_signature_verified + other.num_retranmitter_signature_verified
            <= usize::MAX
        &&& self.num_unknown_slot_leader + other.num_unknown_slot_leader <= usize::MAX
        &&& self.num_unknown_turbine_parent + other.num_unknown_turbine_parent <= usize::MAX
    }

    /// No counter exceeds `bound`.
    pub open spec fn at_most(self, bound: nat) -> bool {
        &&& self.num_verify_calls <= bound
        &&& self.num_verify_failed <= bound
        &&& self.num_discards_post <= bound
        &&& self.num_invalid_retransmitter <= bound
        &&& self.num_retranmitter_signature_skipped <= bound
        &&& self.num_retranmitter_signature_verified <= bound
        &&& self.num_unknown_slot_leader <= bound
        &&& self.num_unknown_turbine_parent <= bound
    }

    /// One more check of a retransmitter signature can be counted without overflow.
    pub open spec fn can_count_retransmitter(self) -> bool {
        &&& self.num_invalid_retransmitter < usize::MAX
        &&& self.num_retranmitter_signature_skipped < usize::MAX
        &&& self.num_retranmitter_signature_verified < usize::MAX
        &&& self.num_unknown_slot_leader < usize::MAX
        &&& self.num_unknown_turbine_parent < usize::MAX
    }

    /// Adds up what two workers counted.
    pub fn accumulate(&mut self, other: Self)
        requires
            old(self).can_add(other),
        ensures
            *final(self) == old(self).plus(other),
    {
        self.num_verify_calls += other.num_verify_calls;
        self.num_verify_failed += other.num_verify_failed;
        self.num_discards_post += other.num_discards_post;
        self.num_invalid_retransmitter += other.num_invalid_retransmitter;
        self.num_retranmitter_signature_skipped += other.num_retranmitter_signature_skipped;
        self.num_retranmitter_signature_verified += other.num_retranmitter_signature_verified;
        self.num_unknown_slot_leader += other.num_unknown_slot_leader;
        self.num_unknown_turbine_parent += other.num_unknown_turbine_parent;
    }

    /// Adds what was counted to the counters of the stage. How many signatures were checked is
    /// not among them.
    pub fn commit(self, stats: &mut ShredSigVerifyStats)
        requires
            old(stats).can_commit(self),
        ensures
            *final(stats) == old(stats).committed(self),
    {
        stats.num_discards_post += self.num_discards_post;
        stats.num_invalid_retransmitter += self.num_invalid_retransmitter;
        stats.num_retranmitter_signature_skipped += self.num_retranmitter_signature_skipped;
        stats.num_retranmitter_signature_verified += self.num_retranmitter_signature_verified;
        stats.num_unknown_slot_leader += self.num_unknown_slot_leader;
        stats.num_unknown_turbine_parent += self.num_unknown_turbine_parent;
    }
}

impl Default for SigverifyWorkerStats {
    fn default() -> (stats: Self)
        ensures
            stats == SigverifyWorkerStats::zero(),
    {
        SigverifyWorkerStats {
            num_verify_calls: 0,
            num_verify_failed: 0,
            num_discards_post: 0,
            num_invalid_retransmitter: 0,
            num_retranmitter_signature_skipped: 0,
            num_retranmitter_signature_verified: 0,
            num_unknown_slot_leader: 0,
            num_unknown_turbine_parent: 0,
        }
    }
}

/// What the signature verification stage counted since it last submitted its counters.
pub struct ShredSigVerifyStats {
    /// When the counters were last submitted.
    pub since: Instant,
    /// Rounds of signature verification.
    pub num_iters: usize,
    /// Packet batches received.
    pub num_batches: usize,
    /// Packets received.
    pub num_packets: usize,
    /// Resets of the deduper because it was saturated.
    pub num_deduper_saturations: usize,
    /// Packets that came in marked for discard, or whose leader signature was wrong.
    pub num_discards_post: usize,
    /// Packets that were received marked for discard.
    pub num_discards_pre: usize,
    /// Packets dropped as duplicates.
    pub num_duplicates: usize,
    /// Shreds whose retransmitter signature was wrong.
    pub num_invalid_retransmitter: usize,
    /// Shreds that need no retransmitter signature.
    pub num_retranmitter_signature_skipped: usize,
    /// Shreds whose retransmitter signature was right.
    pub num_retranmitter_signature_verified: usize,
    /// Shreds that the retransmit stage was too slow to take.
    pub num_retransmit_stage_overflow_shreds: usize,
    /// Shreds passed on to the retransmit stage.
    pub num_retransmit_shreds: usize,
    /// Verified shreds that were thrown away because no storage location was found for them:
    /// the cache of outstanding repair requests is saturated.
    pub num_unknown_block_location: usize,
    /// Shreds of slots whose leader is unknown.
    pub num_unknown_slot_leader: usize,
    /// Shreds whose turbine parent is unknown.
    pub num_unknown_turbine_parent: usize,
    /// Time spent in signature verification.
    pub elapsed_micros: u64,
    /// Time spent in checking and making signatures.
    pub verify_and_resign_micros: u64,
}

/// How long the counters are kept before they are submitted: two seconds.
pub const METRICS_SUBMIT_CADENCE_NANOS: u128 = 2_000_000_000;

impl ShredSigVerifyStats {
    /// All counters are zero.
    pub open spec fn zero(since: Instant) -> ShredSigVerifyStats {
        ShredSigVerifyStats {
            since,
            num_iters: 0,
            num_batches: 0,
            num_packets: 0,
            num_deduper_saturations: 0,
            num_discards_post: 0,
            num_discards_pre: 0,
            num_duplicates: 0,
            num_invalid_retransmitter: 0,
            num_retranmitter_signature_skipped: 0,
            num_retranmitter_signature_verified: 0,
            num_retransmit_stage_overflow_shreds: 0,
            num_retransmit_shreds: 0,
            num_unknown_block_location: 0,
            num_unknown_slot_leader: 0,
            num_unknown_turbine_parent: 0,
            elapsed_micros: 0,
            verify_and_resign_micros: 0,
        }
    }

    /// No counter of packets overflows when up to `more` are added to it.
    pub open spec fn has_room_for(self, more: nat) -> bool {
        &&& self.num_iters + more <= usize::MAX
        &&& self.num_batches + more <= usize::MAX
        &&& self.num_packets + more <= usize::MAX
        &&& self.num_deduper_saturations + more <= usize::MAX
        &&& self.num_discards_post + more <= usize::MAX
        &&& self.num_discards_pre + more <= usize::MAX
        &&& self.num_duplicates + more <= usize::MAX
        &&& self.num_invalid_retransmitter + more <= usize::MAX
        &&& self.num_retranmitter_signature_skipped + more <= usize::MAX
        &&& self.num_retranmitter_signature_verified + more <= usize::MAX
        &&& self.num_retransmit_stage_overflow_shreds + more <= usize::MAX
        &&& self.num_retransmit_shreds + more <= usize::MAX
        &&& self.num_unknown_block_location + more <= usize::MAX
        &&& self.num_unknown_slot_leader + more <= usize::MAX
        &&& self.num_unknown_turbine_parent + more <= usize::MAX
    }

    /// What a worker counted can be added without overflow.
    pub open spec fn can_commit(self, worker: SigverifyWorkerStats) -> bool {
        &&& self.num_discards_post + worker.num_discards_post <= usize::MAX
        &&& self.num_invalid_retransmitter + worker.num_invalid_retransmitter <= usize::MAX
        &&& self.num_retranmitter_signature_skipped + worker.num_retranmitter_signature_skipped
            <= usize::MAX
        &&& self.num_retranmitter_signature_verified + worker.num_retranmitter_signature_verified
            <= usize::MAX
        &&& self.num_unknown_slot_leader + worker.num_unknown_slot_leader <= usize::MAX
        &&& self.num_unknown_turbine_parent + worker.num_unknown_turbine_parent <= usize::MAX
    }

    /// The counters, with what a worker counted added.
    pub open spec fn committed(self, worker: SigverifyWorkerStats) -> ShredSigVerifyStats {
        ShredSigVerifyStats {
            num_discards_post: (self.num_discards_post + worker.num_discards_post) as usize,
            num_invalid_retransmitter: (self.num_invalid_retransmitter
                + worker.num_invalid_retransmitter) as usize,
            num_retranmitter_signature_skipped: (self.num_retranmitter_signature_skipped
                + worker.num_retranmitter_signature_skipped) as usize,
            num_retranmitter_signature_verified: (self.num_retranmitter_signature_verified
                + worker.num_retranmitter_signature_verified) as usize,
            num_unknown_slot_leader: (self.num_unknown_slot_leader
                + worker.num_unknown_slot_leader) as usize,
            num_unknown_turbine_parent: (self.num_unknown_turbine_parent
                + worker.num_unknown_turbine_parent) as usize,
            ..self
        }
    }

    /// Starts counting.
    pub fn new(now: Instant) -> (stats: Self)
        ensures
            stats == ShredSigVerifyStats::zero(now),
    {
        ShredSigVerifyStats {
            since: now,
            num_iters: 0,
            num_batches: 0,
            num_packets: 0,
            num_deduper_saturations: 0,
            num_discards_post: 0,
            num_discards_pre: 0,
            num_duplicates: 0,
            num_invalid_retransmitter: 0,
            num_retranmitter_signature_skipped: 0,
            num_retranmitter_signature_verified: 0,
            num_retransmit_stage_overflow_shreds: 0,
            num_retransmit_shreds: 0,
            num_unknown_block_location: 0,
            num_unknown_slot_leader: 0,
            num_unknown_turbine_parent: 0,
            elapsed_micros: 0,
            verify_and_resign_micros: 0,
        }
    }

    /// Whether up to `more` can be added to each counter of packets without overflow.
    pub fn has_room(&self, more: usize) -> (room: bool)
        ensures
            room == self.has_room_for(more as nat),
    {
        let most: usize = usize::MAX - more;
        self.num_iters <= most
            && self.num_batches <= most
            && self.num_packets <= most
            && self.num_deduper_saturations <= most
            && self.num_discards_post <= most
            && self.num_discards_pre <= most
            && self.num_duplicates <= most
            && self.num_invalid_retransmitter <= most
            && self.num_retranmitter_signature_skipped <= most
            && self.num_retranmitter_signature_verified <= most
            && self.num_retransmit_stage_overflow_shreds <= most
            && self.num_retransmit_shreds <= most
            && self.num_unknown_block_location <= most
            && self.num_unknown_slot_leader <= most
            && self.num_unknown_turbine_parent <= most
    }

    /// Counts a reset of the deduper, if it was saturated.
    pub fn record_deduper_reset(&mut self, saturated: bool)
        requires
            old(self).num_deduper_saturations < usize::MAX,
        ensures
            *final(self) == (ShredSigVerifyStats {
                num_deduper_saturations: (old(self).num_deduper_saturations + if saturated {
                    1int
                } else {
                    0int
                }) as usize,
                ..*old(self)
            }),
    {
        if saturated {
            self.num_deduper_saturations += 1;
        }
    }

    /// Counts the shreds that the retransmit stage was too slow to take.
    pub fn record_overflow(&mut self, shreds: usize)
        requires
            old(self).num_retransmit_stage_overflow_shreds + shreds <= usize::MAX,
        ensures
            *final(self) == (ShredSigVerifyStats {
                num_retransmit_stage_overflow_shreds: (
                old(self).num_retransmit_stage_overflow_shreds + shreds) as usize,
                ..*old(self)
            }),
    {
        self.num_retransmit_stage_overflow_shreds += shreds;
    }

    /// The counters as they are submitted: a name and a value for each.
    pub open spec fn point(self) -> Seq<(Seq<char>, i64)> {
        seq![
            ("num_iters"@, self.num_iters as i64),
            ("num_batches"@, self.num_batches as i64),
            ("num_packets"@, self.num_packets as i64),
            ("num_discards_pre"@, self.num_discards_pre as i64),
            ("num_deduper_saturations"@, self.num_deduper_saturations as i64),
            ("num_discards_post"@, self.num_discards_post as i64),
            ("num_duplicates"@, self.num_duplicates as i64),
            ("num_invalid_retransmitter"@, self.num_invalid_retransmitter as i64),
            ("num_retranmitter_signature_skipped"@, self.num_retranmitter_signature_skipped as i64),
            (
                "num_retranmitter_signature_verified"@,
                self.num_retranmitter_signature_verified as i64,
            ),
            (
                "num_retransmit_stage_overflow_shreds"@,
                self.num_retransmit_stage_overflow_shreds as i64,
            ),
            ("num_retransmit_shreds"@, self.num_retransmit_shreds as i64),
            ("num_unknown_block_location"@, self.num_unknown_block_location as i64),
            ("num_unknown_slot_leader"@, self.num_unknown_slot_leader as i64),
            ("num_unknown_turbine_parent"@, self.num_unknown_turbine_parent as i64),
            ("elapsed_micros"@, self.elapsed_micros as i64),
            ("verify_and_resign_micros"@, self.verify_and_resign_micros as i64),
        ]
    }

    /// The counters as they are submitted.
    pub fn datapoint(&self) -> (point: Vec<(&'static str, i64)>)
        ensures
            point@.map_values(|field: (&'static str, i64)| (field.0@, field.1)) == self.point(),
    {
        let point: Vec<(&'static str, i64)> = vec![
            ("num_iters", self.num_iters as i64),
            ("num_batches", self.num_batches as i64),
            ("num_packets", self.num_packets as i64),
            ("num_discards_pre", self.num_discards_pre as i64),
            ("num_deduper_saturations", self.num_deduper_saturations as i64),
            ("num_discards_post", self.num_discards_post as i64),
            ("num_duplicates", self.num_duplicates as i64),
            ("num_invalid_retransmitter", self.num_invalid_retransmitter as i64),
            ("num_retranmitter_signature_skipped", self.num_retranmitter_signature_skipped as i64),
            (
                "num_retranmitter_signature_verified",
                self.num_retranmitter_signature_verified as i64,
            ),
            (
                "num_retransmit_stage_overflow_shreds",
                self.num_retransmit_stage_overflow_shreds as i64,
            ),
            ("num_retransmit_shreds", self.num_retransmit_shreds as i64),
            ("num_unknown_block_location", self.num_unknown_block_location as i64),
            ("num_unknown_slot_leader", self.num_unknown_slot_leader as i64),
            ("num_unknown_turbine_parent", self.num_unknown_turbine_parent as i64),
            ("elapsed_micros", self.elapsed_micros as i64),
            ("verify_and_resign_micros", self.verify_and_resign_micros as i64),
        ];
        assert(point@.map_values(|field: (&'static str, i64)| (field.0@, field.1))
            =~= self.point());
        point
    }

    /// If the counters were kept for longer than the cadence, hands them out for submission and
    /// starts anew at `now`.
    pub fn submit_after(&mut self, elapsed_nanos: u128, now: Instant) -> (point: Option<
        Vec<(&'static str, i64)>,
    >)
        ensures
            elapsed_nanos <= METRICS_SUBMIT_CADENCE_NANOS ==> point is None && *final(self) == *old(
                self,
            ),
            elapsed_nanos > METRICS_SUBMIT_CADENCE_NANOS ==> {
                &&& point matches Some(point) && point@.map_values(
                    |field: (&'static str, i64)| (field.0@, field.1),
                ) == old(self).point()
                &&& *final(self) == ShredSigVerifyStats::zero(now)
            },
    {
        if elapsed_nanos <= METRICS_SUBMIT_CADENCE_NANOS {
            return None;
        }
        let point = self.datapoint();
        *self = Self::new(now);
        Some(point)
    }

    /// What is handed out for submission, and what is kept, if the counters were kept for
    /// `elapsed_nanos` at `now`.
    pub open spec fn submits(
        self,
        elapsed_nanos: u128,
        now: Instant,
        point: Option<Seq<(Seq<char>, i64)>>,
        kept: ShredSigVerifyStats,
    ) -> bool {
        if elapsed_nanos <= METRICS_SUBMIT_CADENCE_NANOS {
            point is None && kept == self
        } else {
            point == Some(self.point()) && kept == ShredSigVerifyStats::zero(now)
        }
    }

    /// If the counters were kept for longer than the cadence by now, hands them out for submission
    /// and starts anew. What decides is the time that `Instant::elapsed` returns for when the
    /// counters were last submitted.
    pub fn maybe_submit(&mut self) -> (point: Option<Vec<(&'static str, i64)>>)
        ensures
            exists|elapsed: Duration, elapsed_nanos: u128, now: Instant|
                {
                    &&& #[trigger] call_ensures(Instant::elapsed, (&old(self).since,), elapsed)
                    &&& #[trigger] call_ensures(Duration::as_nanos, (&elapsed,), elapsed_nanos)
                    &&& #[trigger] call_ensures(Instant::now, (), now)
                    &&& old(self).submits(
                        elapsed_nanos,
                        now,
                        match point {
                            Some(point) => Some(
                                point@.map_values(
                                    |field: (&'static str, i64)| (field.0@, field.1),
                                ),
                            ),
                            None => None,
                        },
                        *final(self),
                    )
                },
    {
        let elapsed = self.since.elapsed();
        let elapsed_nanos: u128 = elapsed.as_nanos();
        let now = Instant::now();
        self.submit_after(elapsed_nanos, now)
    }
}

impl ShredSigVerifyStats {
    /// The values of the counters, in the order in which they are submitted.
    pub open spec fn counters(self) -> Seq<int> {
        seq![
            self.num_iters as int,
            self.num_batches as int,
            self.num_packets as int,
            self.num_discards_pre as int,
            self.num_deduper_saturations as int,
            self.num_discards_post as int,
            self.num_duplicates as int,
            self.num_invalid_retransmitter as int,
            self.num_retranmitter_signature_skipped as int,
            self.num_retranmitter_signature_verified as int,
            self.num_retransmit_stage_overflow_shreds as int,
            self.num_retransmit_shreds as int,
            self.num_unknown_block_location as int,
            self.num_unknown_slot_leader as int,
            self.num_unknown_turbine_parent as int,
            self.elapsed_micros as int,
            self.verify_and_resign_micros as int,
        ]
    }

    /// All values can be submitted.
    pub open spec fn can_submit(self) -> bool {
        forall|c: int|
            0 <= c < self.counters().len() ==> 0 <= #[trigger] self.counters()[c] <= i64::MAX
    }
}

/// What can happen to the counters of the stage.
pub enum StatsStep {
    /// Something is counted.
    Count,
    /// The counters are handed out if they were kept for long enough.
    Submit {
        /// How long they were kept.
        elapsed_nanos: u128,
        /// When that was found out.
        now: Instant,
    },
}

/// A series of steps.
pub struct StatsHistory {
    /// The counters before each step, and after the last.
    pub states: Seq<ShredSigVerifyStats>,
    /// The steps.
    pub steps: Seq<StatsStep>,
    /// What was handed out in each step.
    pub points: Seq<Option<Seq<(Seq<char>, i64)>>>,
}

impl StatsHistory {
    /// The steps lead from each state to the next, and all values can be submitted.
    pub open spec fn wf(self) -> bool {
        &&& self.states.len() == self.steps.len() + 1
        &&& self.points.len() == self.steps.len()
        &&& forall|k: int| 0 <= k < self.states.len() ==> (#[trigger] self.states[k]).can_submit()
        &&& forall|k: int|
            0 <= k < self.steps.len() ==> match #[trigger] self.steps[k] {
                StatsStep::Count => {
                    &&& self.points[k] is None
                    &&& self.states[k + 1].since == self.states[k].since
                },
                StatsStep::Submit { elapsed_nanos, now } => self.states[k].submits(
                    elapsed_nanos,
                    now,
                    self.points[k],
                    self.states[k + 1],
                ),
            }
    }

    /// How much of counter `c` was handed out in the first `n` steps.
    pub open spec fn submitted(self, c: int, n: int) -> int
        decreases n,
    {
        if n <= 0 {
            0
        } else {
            self.submitted(c, n - 1) + match self.points[n - 1] {
                Some(point) => point[c].1 as int,
                None => 0,
            }
        }
    }

    /// How much was counted on counter `c` in the first `n` steps.
    pub open spec fn counted(self, c: int, n: int) -> int
        decreases n,
    {
        if n <= 0 {
            0
        } else {
            self.counted(c, n - 1) + match self.steps[n - 1] {
                StatsStep::Count => self.states[n].counters()[c] - self.states[n
                    - 1].counters()[c],
                StatsStep::Submit { .. } => 0,
            }
        }
    }
}

/// What is handed out of a counter is its value.
proof fn lemma_point(stats: ShredSigVerifyStats, c: int)
    requires
        stats.can_submit(),
        0 <= c < stats.counters().len(),
    ensures
        stats.point().len() == stats.counters().len(),
        stats.point()[c].1 == stats.counters()[c],
{
    assert(0 <= stats.counters()[c] <= i64::MAX);
}

/// No count is lost or submitted twice: what was handed out and what is left is what was counted.
pub proof fn no_count_is_lost(history: StatsHistory, since: Instant, c: int, n: int)
    requires
        history.wf(),
        history.states[0] == ShredSigVerifyStats::zero(since),
        0 <= n <= history.steps.len(),
        0 <= c < history.states[0].counters().len(),
    ensures
        history.submitted(c, n) + history.states[n].counters()[c] == history.counted(c, n),
    decreases n,
{
    if n > 0 {
        no_count_is_lost(history, since, c, n - 1);
        let before = history.states[n - 1];
        match history.steps[n - 1] {
            StatsStep::Count => {},
            StatsStep::Submit { elapsed_nanos, now } => {
                lemma_point(before, c);
                assert(before.submits(
                    elapsed_nanos,
                    now,
                    history.points[n - 1],
                    history.states[n],
                ));
            },
        }
    }
}

/// Submissions are apart: where counters are handed out, they were kept for longer than the
/// cadence, since the last time that they were handed out.
pub proof fn submissions_are_apart(history: StatsHistory, j: int, k: int)
    requires
        history.wf(),
        0 <= j < k < history.steps.len(),
        history.points[j] is Some,
        history.points[k] is Some,
        forall|i: int| j < i < k ==> (#[trigger] history.points[i]) is None,
    ensures
        history.steps[j] matches StatsStep::Submit { now, .. } && history.states[k].since == now,
        history.steps[k] matches StatsStep::Submit { elapsed_nanos, .. } && elapsed_nanos
            > METRICS_SUBMIT_CADENCE_NANOS,
{
    assert(history.steps[j] is Submit);
    assert(history.steps[k] is Submit);
    lemma_since_kept(history, j, k);
}

proof fn lemma_since_kept(history: StatsHistory, j: int, k: int)
    requires
        history.wf(),
        0 <= j < k < history.steps.len(),
        history.points[j] is Some,
        forall|i: int| j < i < k ==> (#[trigger] history.points[i]) is None,
    ensures
        history.steps[j] matches StatsStep::Submit { now, .. } && history.states[k].since == now,
    decreases k - j,
{
    assert(history.steps[j] is Submit);
    if k > j + 1 {
        lemma_since_kept(history, j, k - 1);
        assert(history.points[k - 1] is None);
        assert(history.steps[k - 1] is Count || history.steps[k - 1] is Submit);
    }
}

/// Adding up what two workers counted adds each counter to the same counter, and nothing counted
/// adds nothing.
pub proof fn worker_counters_are_added_one_by_one(
    left: SigverifyWorkerStats,
    right: SigverifyWorkerStats,
)
    requires
        left.can_add(right),
    ensures
        left.plus(right).num_verify_calls == left.num_verify_calls + right.num_verify_calls,
        left.plus(right).num_verify_failed == left.num_verify_failed + right.num_verify_failed,
        left.plus(right).num_discards_post == left.num_discards_post + right.num_discards_post,
        left.plus(right).num_invalid_retransmitter
            == left.num_invalid_retransmitter + right.num_invalid_retransmitter,
        left.plus(right).num_retranmitter_signature_skipped
            == left.num_retranmitter_signature_skipped + right.num_retranmitter_signature_skipped,
        left.plus(right).num_retranmitter_signature_verified
            == left.num_retranmitter_signature_verified + right.num_retranmitter_signature_verified,
        left.plus(right).num_unknown_slot_leader
            == left.num_unknown_slot_leader + right.num_unknown_slot_leader,
        left.plus(right).num_unknown_turbine_parent
            == left.num_unknown_turbine_parent + right.num_unknown_turbine_parent,
        SigverifyWorkerStats::zero().plus(left) == left,
        left.plus(SigverifyWorkerStats::zero()) == left,
{
}

/// What workers counted is added to the counters of the stage of the same name. How many signatures
/// were checked is not, and the other counters stay as they are.
pub proof fn committed_counters_are_added_one_by_one(
    stats: ShredSigVerifyStats,
    worker: SigverifyWorkerStats,
)
    requires
        stats.can_commit(worker),
    ensures
        stats.committed(worker).num_iters == stats.num_iters,
        stats.committed(worker).num_batches == stats.num_batches,
        stats.committed(worker).num_packets == stats.num_packets,
        stats.committed(worker).num_discards_pre == stats.num_discards_pre,
        stats.committed(worker).num_deduper_saturations == stats.num_deduper_saturations,
        stats.committed(worker).num_discards_post
            == stats.num_discards_post + worker.num_discards_post,
        stats.committed(worker).num_duplicates == stats.num_duplicates,
        stats.committed(worker).num_invalid_retransmitter
            == stats.num_invalid_retransmitter + worker.num_invalid_retransmitter,
        stats.committed(worker).num_retranmitter_signature_skipped
            == stats.num_retranmitter_signature_skipped + worker.num_retranmitter_signature_skipped,
        stats.committed(worker).num_retranmitter_signature_verified
            == stats.num_retranmitter_signature_verified
            + worker.num_retranmitter_signature_verified,
        stats.committed(worker).num_retransmit_stage_overflow_shreds
            == stats.num_retransmit_stage_overflow_shreds,
        stats.committed(worker).num_retransmit_shreds == stats.num_retransmit_shreds,
        stats.committed(worker).num_unknown_block_location == stats.num_unknown_block_location,
        stats.committed(worker).num_unknown_slot_leader
            == stats.num_unknown_slot_leader + worker.num_unknown_slot_leader,
        stats.committed(worker).num_unknown_turbine_parent
            == stats.num_unknown_turbine_parent + worker.num_unknown_turbine_parent,
        stats.committed(worker).elapsed_micros == stats.elapsed_micros,
        stats.committed(worker).verify_and_resign_micros == stats.verify_and_resign_micros,
        stats.committed(worker).since == stats.since,
{
}

/// Counters start at zero.
pub proof fn counters_start_at_zero(since: Instant, c: int)
    requires
        0 <= c < ShredSigVerifyStats::zero(since).counters().len(),
    ensures
        ShredSigVerifyStats::zero(since).counters()[c] == 0,
        ShredSigVerifyStats::zero(since).since == since,
{
}

/// Counters are handed out if and only if they were kept for more than two seconds. What is handed
/// out is all of them, and then they start at zero; otherwise all of them are kept.
pub proof fn counters_are_handed_out_after_two_seconds(
    stats: ShredSigVerifyStats,
    elapsed_nanos: u128,
    now: Instant,
    point: Option<Seq<(Seq<char>, i64)>>,
    kept: ShredSigVerifyStats,
)
    requires
        stats.submits(elapsed_nanos, now, point, kept),
        stats.can_submit(),
    ensures
        point is Some <==> elapsed_nanos > 2_000_000_000,
        point is None ==> kept == stats,
        point matches Some(point) ==> {
            &&& point.len() == stats.counters().len()
            &&& forall|c: int|
                0 <= c < point.len() ==> (#[trigger] point[c]).1 == stats.counters()[c]
                    && kept.counters()[c] == 0
            &&& kept.since == now
        },
{
    if let Some(point) = point {
        assert forall|c: int| 0 <= c < point.len() implies (#[trigger] point[c]).1
            == stats.counters()[c] && kept.counters()[c] == 0 by {
            lemma_point(stats, c);
        }
    }
}

/// Each counter has its own place among those that are handed out.
pub proof fn counters_have_their_places(stats: ShredSigVerifyStats)
    ensures
        stats.counters().len() == 17,
        stats.counters()[0] == stats.num_iters,
        stats.counters()[1] == stats.num_batches,
        stats.counters()[2] == stats.num_packets,
        stats.counters()[3] == stats.num_discards_pre,
        stats.counters()[4] == stats.num_deduper_saturations,
        stats.counters()[5] == stats.num_discards_post,
        stats.counters()[6] == stats.num_duplicates,
        stats.counters()[7] == stats.num_invalid_retransmitter,
        stats.counters()[8] == stats.num_retranmitter_signature_skipped,
        stats.counters()[9] == stats.num_retranmitter_signature_verified,
        stats.counters()[10] == stats.num_retransmit_stage_overflow_shreds,
        stats.counters()[11] == stats.num_retransmit_shreds,
        stats.counters()[12] == stats.num_unknown_block_location,
        stats.counters()[13] == stats.num_unknown_slot_leader,
        stats.counters()[14] == stats.num_unknown_turbine_parent,
        stats.counters()[15] == stats.elapsed_micros,
        stats.counters()[16] == stats.verify_and_resign_micros,
{
}

/// Each counter is handed out under its own name.
pub proof fn counters_are_handed_out_by_name(stats: ShredSigVerifyStats)
    ensures
        stats.point().len() == 17,
        stats.point()[0] == ("num_iters"@, stats.num_iters as i64),
        stats.point()[1] == ("num_batches"@, stats.num_batches as i64),
        stats.point()[2] == ("num_packets"@, stats.num_packets as i64),
        stats.point()[3] == ("num_discards_pre"@, stats.num_discards_pre as i64),
        stats.point()[4] == ("num_deduper_saturations"@, stats.num_deduper_saturations as i64),
        stats.point()[5] == ("num_discards_post"@, stats.num_discards_post as i64),
        stats.point()[6] == ("num_duplicates"@, stats.num_duplicates as i64),
        stats.point()[7] == ("num_invalid_retransmitter"@, stats.num_invalid_retransmitter as i64),
        stats.point()[8] == (
            "num_retranmitter_signature_skipped"@,
            stats.num_retranmitter_signature_skipped as i64,
        ),
        stats.point()[9] == (
            "num_retranmitter_signature_verified"@,
            stats.num_retranmitter_signature_verified as i64,
        ),
        stats.point()[10] == (
            "num_retransmit_stage_overflow_shreds"@,
            stats.num_retransmit_stage_overflow_shreds as i64,
        ),
        stats.point()[11] == ("num_retransmit_shreds"@, stats.num_retransmit_shreds as i64),
        stats.point()[12] == (
            "num_unknown_block_location"@,
            stats.num_unknown_block_location as i64,
        ),
        stats.point()[13] == ("num_unknown_slot_leader"@, stats.num_unknown_slot_leader as i64),
        stats.point()[14] == (
            "num_unknown_turbine_parent"@,
            stats.num_unknown_turbine_parent as i64,
        ),
        stats.point()[15] == ("elapsed_micros"@, stats.elapsed_micros as i64),
        stats.point()[16] == ("verify_and_resign_micros"@, stats.verify_and_resign_micros as i64),
{
}

/// There is room for more if and only if no counter of rounds, batches, packets or shreds would
/// overflow. Those are all but the last two, which count time.
pub proof fn room_is_for_every_counter(stats: ShredSigVerifyStats, more: nat)
    ensures
        stats.has_room_for(more) <==> forall|c: int|
            0 <= c < 15 ==> #[trigger] stats.counters()[c] + more <= usize::MAX,
{
    if forall|c: int| 0 <= c < 15 ==> #[trigger] stats.counters()[c] + more <= usize::MAX {
        assert(stats.counters()[0] + more <= usize::MAX);
        assert(stats.counters()[1] + more <= usize::MAX);
        assert(stats.counters()[2] + more <= usize::MAX);
        assert(stats.counters()[3] + more <= usize::MAX);
        assert(stats.counters()[4] + more <= usize::MAX);
        assert(stats.counters()[5] + more <= usize::MAX);
        assert(stats.counters()[6] + more <= usize::MAX);
        assert(stats.counters()[7] + more <= usize::MAX);
        assert(stats.counters()[8] + more <= usize::MAX);
        assert(stats.counters()[9] + more <= usize::MAX);
        assert(stats.counters()[10] + more <= usize::MAX);
        assert(stats.counters()[11] + more <= usize::MAX);
        assert(stats.counters()[12] + more <= usize::MAX);
        assert(stats.counters()[13] + more <= usize::MAX);
        assert(stats.counters()[14] + more <= usize::MAX);
    }
}

} // verus!
