//! Consensus certificates: what they are about, and how much stake they need.

use crate::bytes::same_bytes;
use agave_votor_messages::consensus_message::CertificateType as MessageType;
use agave_votor_messages::fraction::Fraction as StakeFraction;
use std::num::NonZeroU64;
use vstd::prelude::*;

verus! {

/// A block.
#[derive(Debug, Clone, Copy, PartialEq, Eq)]
pub struct Block {
    /// The slot of the block.
    pub slot: u64,
    /// Which of the blocks of that slot it is.
    pub block_id: [u8; 32],
}

/// What a certificate certifies.
#[derive(Debug, Clone, Copy, PartialEq, Eq)]
pub enum CertificateType {
    /// The slot is finalized.
    Finalize(u64),
    /// The block is finalized in one round.
    FinalizeFast(Block),
    /// The block is notarized.
    Notarize(Block),
    /// The block is notarized, or is a fallback.
    NotarizeFallback(Block),
    /// The slot is skipped.
    Skip(u64),
    /// The block is the first one.
    Genesis(Block),
}

impl CertificateType {
    /// The slot that the certificate is about.
    pub open spec fn of_slot(self) -> u64 {
        match self {
            CertificateType::Finalize(slot) | CertificateType::Skip(slot) => slot,
            CertificateType::FinalizeFast(block)
            | CertificateType::Notarize(block)
            | CertificateType::NotarizeFallback(block)
            | CertificateType::Genesis(block) => block.slot,
        }
    }

    /// The slot that the certificate is about.
    pub fn slot(&self) -> (slot: u64)
        ensures
            slot == self.of_slot(),
    {
        match self {
            CertificateType::Finalize(slot) | CertificateType::Skip(slot) => *slot,
            CertificateType::FinalizeFast(block)
            | CertificateType::Notarize(block)
            | CertificateType::NotarizeFallback(block)
            | CertificateType::Genesis(block) => block.slot,
        }
    }

    /// Whether both certify the same.
    pub fn same(&self, other: &CertificateType) -> (same: bool)
        ensures
            same == (*self == *other),
    {
        match (self, other) {
            (CertificateType::Finalize(left), CertificateType::Finalize(right)) => *left == *right,
            (CertificateType::Skip(left), CertificateType::Skip(right)) => *left == *right,
            (CertificateType::FinalizeFast(left), CertificateType::FinalizeFast(right)) => {
                left.same(right)
            },
            (CertificateType::Notarize(left), CertificateType::Notarize(right)) => left.same(right),
            (CertificateType::NotarizeFallback(left), CertificateType::NotarizeFallback(right)) => {
                left.same(right)
            },
            (CertificateType::Genesis(left), CertificateType::Genesis(right)) => left.same(right),
            _ => false,
        }
    }
}

impl Block {
    /// Whether both are the same block.
    pub fn same(&self, other: &Block) -> (same: bool)
        ensures
            same == (*self == *other),
    {
        self.slot == other.slot && same_bytes(&self.block_id, &other.block_id)
    }
}

/// The part of the stake that has to stand behind a certificate, in percent.
pub open spec fn threshold_percent(cert_type: CertificateType) -> u64 {
    match cert_type {
        CertificateType::FinalizeFast(_) => 80,
        CertificateType::Genesis(_) => 82,
        _ => 60,
    }
}

/// Whether enough of the stake stands behind a certificate.
pub open spec fn has_enough_stake(
    cert_type: CertificateType,
    aggregate_stake: u64,
    total_stake: u64,
) -> bool {
    aggregate_stake * 100 >= threshold_percent(cert_type) * total_stake
}

/// `CertificateType::limits_and_vote_types` and the order of `Fraction`: whether the part
/// `aggregate_stake` of `total_stake` is at least the part that a certificate of this type needs.
/// Fractions are compared by cross-multiplication, without rounding.
#[verifier::external_body]
pub(crate) fn meets_limit(
    cert_type: &CertificateType,
    aggregate_stake: u64,
    total_stake: u64,
) -> (meets: bool)
    requires
        total_stake != 0,
    ensures
        meets == has_enough_stake(*cert_type, aggregate_stake, total_stake),
{
    let message_type = match cert_type {
        CertificateType::Finalize(slot) => MessageType::Finalize(*slot),
        CertificateType::FinalizeFast(b) => MessageType::FinalizeFast(b.slot, b.block_id.into()),
        CertificateType::Notarize(b) => MessageType::Notarize(b.slot, b.block_id.into()),
        CertificateType::NotarizeFallback(b) => {
            MessageType::NotarizeFallback(b.slot, b.block_id.into())
        }
        CertificateType::Skip(slot) => MessageType::Skip(*slot),
        CertificateType::Genesis(b) => MessageType::Genesis(b.slot, b.block_id.into()),
    };
    let total = NonZeroU64::new(total_stake).unwrap();
    StakeFraction::new(aggregate_stake, total) >= message_type.limits_and_vote_types().0
}

/// A part of the stake.
#[derive(Debug, Clone, Copy, PartialEq, Eq)]
pub struct Fraction {
    /// The numerator.
    pub numerator: u64,
    /// The denominator.
    pub denominator: u64,
}

/// The part of the stake that has to stand behind a certificate.
pub fn required_fraction(cert_type: &CertificateType) -> (fraction: Fraction)
    ensures
        fraction == (Fraction { numerator: threshold_percent(*cert_type), denominator: 100 }),
{
    let numerator: u64 = match cert_type {
        CertificateType::FinalizeFast(_) => 80,
        CertificateType::Genesis(_) => 82,
        _ => 60,
    };
    Fraction { numerator, denominator: 100 }
}

/// Whether a certificate is about a slot that is too far ahead of the root to be looked at.
pub open spec fn is_too_far(cert_slot: u64, root_slot: u64, window: u64) -> bool {
    cert_slot > root_slot + window
}

/// Whether a certificate is about a slot that is more than `window` slots ahead of the root.
pub fn too_far_in_future(cert_slot: u64, root_slot: u64, window: u64) -> (too_far: bool)
    ensures
        too_far == is_too_far(cert_slot, root_slot, window),
{
    cert_slot > root_slot.saturating_add(window)
}

/// More stake behind a certificate never makes it invalid.
pub proof fn more_stake_is_enough(
    cert_type: CertificateType,
    less: u64,
    more: u64,
    total_stake: u64,
)
    requires
        less <= more,
        has_enough_stake(cert_type, less, total_stake),
    ensures
        has_enough_stake(cert_type, more, total_stake),
{
}

/// The whole stake is always enough, and none of it never is.
pub proof fn whole_stake_is_enough(cert_type: CertificateType, total_stake: u64)
    requires
        total_stake != 0,
    ensures
        has_enough_stake(cert_type, total_stake, total_stake),
        !has_enough_stake(cert_type, 0, total_stake),
{
    let percent = threshold_percent(cert_type);
    assert(0 < percent * total_stake <= total_stake * 100) by (nonlinear_arith)
        requires
            0 < percent <= 100,
            total_stake > 0,
    ;
}

/// A certificate that finalizes a block in one round needs four fifths of the stake, that of the
/// first block eighty-two hundredths, and any other three fifths. Exactly that much is enough.
pub proof fn stake_that_is_needed(cert_type: CertificateType, stake: u64, total_stake: u64)
    ensures
        cert_type is FinalizeFast ==> (has_enough_stake(cert_type, stake, total_stake) <==> 5
            * stake >= 4 * total_stake),
        cert_type is Genesis ==> (has_enough_stake(cert_type, stake, total_stake) <==> 100 * stake
            >= 82 * total_stake),
        cert_type !is FinalizeFast && cert_type !is Genesis ==> (has_enough_stake(
            cert_type,
            stake,
            total_stake,
        ) <==> 5 * stake >= 3 * total_stake),
        has_enough_stake(cert_type, stake, total_stake) <==> stake * 100 >= threshold_percent(
            cert_type,
        ) * total_stake,
{
}

/// Certificates about slots are about those, and certificates about blocks about the slots of the
/// blocks.
pub proof fn certificates_are_about_their_slots(slot: u64, block: Block)
    ensures
        CertificateType::Finalize(slot).of_slot() == slot,
        CertificateType::Skip(slot).of_slot() == slot,
        CertificateType::FinalizeFast(block).of_slot() == block.slot,
        CertificateType::Notarize(block).of_slot() == block.slot,
        CertificateType::NotarizeFallback(block).of_slot() == block.slot,
        CertificateType::Genesis(block).of_slot() == block.slot,
{
}

/// A slot is too far ahead of the root if and only if it is ahead by more than the window: slots up
/// to the root never are, and the last one within the window is not.
pub proof fn window_starts_at_the_root(cert_slot: u64, root_slot: u64, window: u64)
    ensures
        cert_slot <= root_slot ==> !is_too_far(cert_slot, root_slot, window),
        cert_slot > root_slot ==> (is_too_far(cert_slot, root_slot, window) <==> cert_slot
            - root_slot > window),
{
}

} // verus!
