//! Checking the signature of the node that a shred was retransmitted by.

use crate::bytes::Pubkey;
use crate::stats::SigverifyWorkerStats;
use solana_signature::Signature;
use vstd::prelude::*;

verus! {

/// Why a shred could not be read.
#[derive(Debug, Clone, Copy, PartialEq, Eq)]
pub enum ShredError {
    /// The packet is too short for a shred.
    InvalidPacketSize,
    /// The shred is of a variant that does not have what was looked for.
    InvalidShredVariant,
    /// The shred is malformed in some other way.
    Malformed,
}

/// Why a packet is not resigned.
#[derive(Debug, Clone, Copy, PartialEq, Eq)]
pub enum ResignError {
    /// Verification of the retransmitter signature failed.
    VerifyRetransmitterSignature,
    /// The shred in the packet could not be read or resigned.
    Shred(ShredError),
}

/// The node that should have retransmitted a shred to this one.
#[derive(Debug, Clone, Copy, PartialEq, Eq)]
pub enum TurbineParent {
    /// The node with this public key.
    Node(Pubkey),
    /// None: this node is at the root of the turbine tree for the shred, or not in it.
    NotNeeded,
    /// The parent cannot be told.
    Unknown,
}

/// What the retransmitter signature of a shred is checked by.
#[derive(Debug, Clone, Copy)]
pub struct RetransmitterFacts {
    /// The signature in the shred.
    pub signature: Result<[u8; 64], ShredError>,
    /// The Merkle root that was signed, if the shred has one.
    pub merkle_root: Option<[u8; 32]>,
    /// The slot of the shred, if the shred can be identified.
    pub slot: Option<u64>,
    /// The leader of that slot, if it is known.
    pub leader: Option<Pubkey>,
    /// The parent of this node in the turbine tree of that leader for the shred.
    pub parent: TurbineParent,
}

/// What decides whether a packet is resigned.
#[derive(Debug, Clone, Copy)]
pub struct ResignFacts {
    /// Whether the shred is of a variant that is signed by its retransmitter. `None` if there is
    /// no shred in the packet.
    pub retransmitter_signed: Option<Result<bool, ShredError>>,
    /// What the retransmitter signature is checked by.
    pub retransmitter: RetransmitterFacts,
    /// Whether a wrong signature counts in the slot of the shred. `None` if the slot cannot be
    /// told.
    pub enforced: Option<bool>,
}

/// What is to be done with a packet that is not an error.
#[derive(Debug, Clone, Copy, PartialEq, Eq)]
pub enum ResignAction {
    /// The packet is left as it is.
    Leave,
    /// The packet is signed by this node as its retransmitter.
    Resign,
}

/// Whether a signature is that of `pubkey` on `message`, by the rules of `Signature::verify`.
pub uninterp spec fn signature_verifies(
    signature: Seq<u8>,
    pubkey: Seq<u8>,
    message: Seq<u8>,
) -> bool;

/// `Signature::verify`: whether the Ed25519 signature is that of `pubkey` on `message`, under the
/// strict rules; no signature of a malformed public key is. What a valid signature is, is not
/// spelled out here.
#[verifier::external_body]
fn verify_signature(signature: &[u8; 64], pubkey: &[u8; 32], message: &[u8; 32]) -> (valid: bool)
    ensures
        valid == signature_verifies(signature@, pubkey@, message@),
{
    Signature::from(*signature).verify(pubkey, message)
}

/// How the check of a retransmitter signature ends.
pub enum RetransmitterVerdict {
    /// The shred has no retransmitter signature to check.
    NotSigned,
    /// The shred is malformed.
    Malformed,
    /// The leader of the slot is unknown.
    UnknownLeader,
    /// The shred has no retransmitter.
    Skipped,
    /// The retransmitter cannot be told.
    UnknownParent,
    /// The signature is that of the retransmitter.
    Verified,
    /// The signature is not that of the retransmitter.
    WrongSignature,
}

impl RetransmitterVerdict {
    /// Whether the packet passes.
    pub open spec fn passes(self) -> bool {
        self is NotSigned || self is Skipped || self is Verified
    }

    /// The counters after the check.
    pub open spec fn counted(self, stats: SigverifyWorkerStats) -> SigverifyWorkerStats {
        match self {
            RetransmitterVerdict::UnknownLeader => SigverifyWorkerStats {
                num_unknown_slot_leader: (stats.num_unknown_slot_leader + 1) as usize,
                ..stats
            },
            RetransmitterVerdict::Skipped => SigverifyWorkerStats {
                num_retranmitter_signature_skipped: (stats.num_retranmitter_signature_skipped
                    + 1) as usize,
                ..stats
            },
            RetransmitterVerdict::UnknownParent => SigverifyWorkerStats {
                num_unknown_turbine_parent: (stats.num_unknown_turbine_parent + 1) as usize,
                ..stats
            },
            RetransmitterVerdict::Verified => SigverifyWorkerStats {
                num_retranmitter_signature_verified: (stats.num_retranmitter_signature_verified
                    + 1) as usize,
                ..stats
            },
            _ => stats,
        }
    }
}

/// How the check of a retransmitter signature ends: the first thing that is missing decides, and
/// if nothing is, the signature does.
pub open spec fn retransmitter_verdict(facts: RetransmitterFacts) -> RetransmitterVerdict {
    match facts.signature {
        Err(ShredError::InvalidShredVariant) => RetransmitterVerdict::NotSigned,
        Err(_) => RetransmitterVerdict::Malformed,
        Ok(signature) => match facts.merkle_root {
            None => RetransmitterVerdict::Malformed,
            Some(merkle_root) => if facts.slot is None {
                RetransmitterVerdict::Malformed
            } else if facts.leader is None {
                RetransmitterVerdict::UnknownLeader
            } else {
                match facts.parent {
                    TurbineParent::NotNeeded => RetransmitterVerdict::Skipped,
                    TurbineParent::Unknown => RetransmitterVerdict::UnknownParent,
                    TurbineParent::Node(parent) => if signature_verifies(
                        signature@,
                        parent@,
                        merkle_root@,
                    ) {
                        RetransmitterVerdict::Verified
                    } else {
                        RetransmitterVerdict::WrongSignature
                    },
                }
            },
        },
    }
}

/// Whether the retransmitter signature of a shred lets it pass. Shreds that carry none pass, and
/// so do shreds that no other node had to retransmit.
#[must_use]
pub fn verify_retransmitter_signature(
    facts: &RetransmitterFacts,
    stats: &mut SigverifyWorkerStats,
) -> (passes: bool)
    requires
        old(stats).can_count_retransmitter(),
    ensures
        passes == retransmitter_verdict(*facts).passes(),
        *final(stats) == retransmitter_verdict(*facts).counted(*old(stats)),
{
    let signature: [u8; 64] = match facts.signature {
        Ok(signature) => signature,
        Err(ShredError::InvalidShredVariant) => return true,
        Err(_) => return false,
    };
    let merkle_root: [u8; 32] = match facts.merkle_root {
        Some(merkle_root) => merkle_root,
        None => return false,
    };
    if facts.slot.is_none() {
        return false;
    }
    if facts.leader.is_none() {
        stats.num_unknown_slot_leader += 1;
        return false;
    }
    let parent: Pubkey = match facts.parent {
        TurbineParent::Node(parent) => parent,
        TurbineParent::NotNeeded => {
            stats.num_retranmitter_signature_skipped += 1;
            return true;
        },
        TurbineParent::Unknown => {
            stats.num_unknown_turbine_parent += 1;
            return false;
        },
    };
    if verify_signature(&signature, &parent, &merkle_root) {
        stats.num_retranmitter_signature_verified += 1;
        true
    } else {
        false
    }
}

/// Whether the retransmitter signature of the packet is checked: the shred carries one, and the
/// packet came through the turbine tree.
pub open spec fn retransmitter_checked(repair: bool, facts: ResignFacts) -> bool {
    facts.retransmitter_signed == Some(Ok::<bool, ShredError>(true)) && !repair
}

/// Whether the retransmitter signature of a packet is checked, by whether its shred is of a variant
/// that its retransmitter signs.
pub fn needs_retransmitter(repair: bool, signed: &Option<Result<bool, ShredError>>) -> (needed:
    bool)
    ensures
        needed == (*signed == Some(Ok::<bool, ShredError>(true)) && !repair),
{
    match signed {
        Some(Ok(true)) => !repair,
        _ => false,
    }
}

/// What is to be done with a packet.
pub open spec fn resign_decision(repair: bool, facts: ResignFacts) -> Result<
    ResignAction,
    ResignError,
> {
    match facts.retransmitter_signed {
        None => Err(ResignError::Shred(ShredError::InvalidPacketSize)),
        Some(Err(err)) => Err(ResignError::Shred(err)),
        Some(Ok(false)) => Ok(ResignAction::Leave),
        Some(Ok(true)) => if !repair && !retransmitter_verdict(facts.retransmitter).passes()
            && facts.enforced == Some(true) {
            Err(ResignError::VerifyRetransmitterSignature)
        } else {
            Ok(ResignAction::Resign)
        },
    }
}

/// The counters after the decision.
pub open spec fn resign_counted(
    repair: bool,
    facts: ResignFacts,
    stats: SigverifyWorkerStats,
) -> SigverifyWorkerStats {
    if retransmitter_checked(repair, facts) {
        let verdict = retransmitter_verdict(facts.retransmitter);
        let counted = verdict.counted(stats);
        if verdict.passes() {
            counted
        } else {
            SigverifyWorkerStats {
                num_invalid_retransmitter: (counted.num_invalid_retransmitter + 1) as usize,
                ..counted
            }
        }
    } else {
        stats
    }
}

/// Decides what is to be done with a packet whose leader signature is right. A shred that carries
/// a retransmitter signature is resigned. Before that its signature is checked, unless the packet
/// answers a repair request: those do not follow the turbine tree, and are verified by their
/// nonce. A wrong signature is an error only where it counts.
pub fn maybe_verify_and_resign_packet(
    repair: bool,
    facts: &ResignFacts,
    stats: &mut SigverifyWorkerStats,
) -> (decision: Result<ResignAction, ResignError>)
    requires
        old(stats).can_count_retransmitter(),
    ensures
        decision == resign_decision(repair, *facts),
        *final(stats) == resign_counted(repair, *facts, *old(stats)),
        facts.retransmitter_signed == Some(Ok::<bool, ShredError>(true)) && decision is Ok
            ==> decision == Ok::<_, ResignError>(ResignAction::Resign),
        decision == Ok::<_, ResignError>(ResignAction::Leave) <==> facts.retransmitter_signed
            == Some(Ok::<bool, ShredError>(false)),
{
    match facts.retransmitter_signed {
        None => return Err(ResignError::Shred(ShredError::InvalidPacketSize)),
        Some(Err(err)) => return Err(ResignError::Shred(err)),
        Some(Ok(false)) => return Ok(ResignAction::Leave),
        Some(Ok(true)) => {},
    }
    if !repair && !verify_retransmitter_signature(&facts.retransmitter, stats) {
        stats.num_invalid_retransmitter += 1;
        if facts.enforced.unwrap_or(false) {
            return Err(ResignError::VerifyRetransmitterSignature);
        }
    }
    Ok(ResignAction::Resign)
}

/// All that the check of a retransmitter signature needs before the turbine tree is asked is there:
/// the signature, what was signed, and the slot.
pub open spec fn is_complete(facts: RetransmitterFacts) -> bool {
    facts.signature is Ok && facts.merkle_root is Some && facts.slot is Some
}

/// How a check ends depends on nothing but what is missing and on the signature of the parent.
pub proof fn verdicts_have_their_reasons(facts: RetransmitterFacts)
    ensures
        ({
            let verdict = retransmitter_verdict(facts);
            let known = is_complete(facts) && facts.leader is Some;
            let signed_by_parent = facts.parent matches TurbineParent::Node(parent)
                && signature_verifies(facts.signature->Ok_0@, parent@, facts.merkle_root->0@);
            &&& verdict is NotSigned <==> facts.signature == Err::<[u8; 64], _>(
                ShredError::InvalidShredVariant,
            )
            &&& verdict is UnknownLeader <==> is_complete(facts) && facts.leader is None
            &&& verdict is Skipped <==> known && facts.parent is NotNeeded
            &&& verdict is UnknownParent <==> known && facts.parent is Unknown
            &&& verdict is Verified <==> known && signed_by_parent
            &&& verdict is WrongSignature <==> known && facts.parent is Node && !signed_by_parent
        }),
{
}

/// A packet passes the check if and only if its shred carries no retransmitter signature, or all
/// is known and either no node had to retransmit it or the signature is that of the node that had.
pub proof fn only_the_parent_can_sign(facts: RetransmitterFacts)
    ensures
        retransmitter_verdict(facts).passes() <==> (match facts.signature {
            Err(err) => err == ShredError::InvalidShredVariant,
            Ok(signature) => {
                &&& facts.merkle_root is Some
                &&& facts.slot is Some
                &&& facts.leader is Some
                &&& match facts.parent {
                    TurbineParent::NotNeeded => true,
                    TurbineParent::Unknown => false,
                    TurbineParent::Node(parent) => signature_verifies(
                        signature@,
                        parent@,
                        facts.merkle_root->0@,
                    ),
                }
            },
        }),
{
}

/// A check raises at most one counter by one: that of unknown leaders, of skipped or of verified
/// signatures, or of unknown parents.
pub proof fn checks_raise_their_own_counter(facts: RetransmitterFacts, stats: SigverifyWorkerStats)
    requires
        stats.can_count_retransmitter(),
    ensures
        ({
            let after = retransmitter_verdict(facts).counted(stats);
            let known = is_complete(facts) && facts.leader is Some;
            let signed_by_parent = facts.parent matches TurbineParent::Node(parent)
                && signature_verifies(facts.signature->Ok_0@, parent@, facts.merkle_root->0@);
            &&& after.num_unknown_slot_leader == stats.num_unknown_slot_leader + if is_complete(
                facts,
            ) && facts.leader is None {
                1int
            } else {
                0
            }
            &&& after.num_retranmitter_signature_skipped
                == stats.num_retranmitter_signature_skipped + if known
                && facts.parent is NotNeeded {
                1int
            } else {
                0
            }
            &&& after.num_unknown_turbine_parent == stats.num_unknown_turbine_parent + if known
                && facts.parent is Unknown {
                1int
            } else {
                0
            }
            &&& after.num_retranmitter_signature_verified
                == stats.num_retranmitter_signature_verified + if known && signed_by_parent {
                1int
            } else {
                0
            }
            &&& after.num_invalid_retransmitter == stats.num_invalid_retransmitter
            &&& after.num_verify_calls == stats.num_verify_calls
            &&& after.num_verify_failed == stats.num_verify_failed
            &&& after.num_discards_post == stats.num_discards_post
        }),
{
}

/// A shred of a variant that its retransmitter signs is resigned if and only if it is not rejected.
/// It is rejected if and only if it came through the turbine tree, its signature does not pass, and
/// that counts. A packet is left as it is if and only if its shred is of another variant. Packets
/// whose shred cannot be read are errors.
pub proof fn signed_shreds_are_resigned_or_rejected(repair: bool, facts: ResignFacts)
    ensures
        ({
            let decision = resign_decision(repair, facts);
            let signed = facts.retransmitter_signed == Some(Ok::<bool, ShredError>(true));
            let unsigned = facts.retransmitter_signed == Some(Ok::<bool, ShredError>(false));
            let wrong = !repair && !retransmitter_verdict(facts.retransmitter).passes();
            &&& signed ==> (decision is Ok <==> decision == Ok::<_, ResignError>(
                ResignAction::Resign,
            ))
            &&& signed ==> (decision is Err <==> wrong && facts.enforced == Some(true))
            &&& decision == Ok::<_, ResignError>(ResignAction::Leave) <==> unsigned
            &&& decision == Err::<ResignAction, _>(ResignError::VerifyRetransmitterSignature)
                <==> signed && decision is Err
            &&& facts.retransmitter_signed is None ==> decision == Err::<ResignAction, _>(
                ResignError::Shred(ShredError::InvalidPacketSize),
            )
            &&& facts.retransmitter_signed matches Some(Err(err)) ==> decision == Err::<
                ResignAction,
                _,
            >(ResignError::Shred(err))
        }),
{
}

/// A shred whose retransmitter signature is that of the parent is signed anew by this node, whether
/// or not a wrong one would count.
pub proof fn shreds_signed_by_the_parent_are_resigned(
    repair: bool,
    facts: ResignFacts,
    signature: [u8; 64],
    parent: Pubkey,
    merkle_root: [u8; 32],
)
    requires
        facts.retransmitter_signed == Some(Ok::<bool, ShredError>(true)),
        facts.retransmitter.signature == Ok::<_, ShredError>(signature),
        facts.retransmitter.merkle_root == Some(merkle_root),
        facts.retransmitter.slot is Some,
        facts.retransmitter.leader is Some,
        facts.retransmitter.parent == TurbineParent::Node(parent),
        signature_verifies(signature@, parent@, merkle_root@),
    ensures
        resign_decision(repair, facts) == Ok::<_, ResignError>(ResignAction::Resign),
{
}

/// Only turbine packets whose shred is signed by its retransmitter raise counters. They raise those
/// of the check, and one more if the signature does not pass, whether or not that counts.
pub proof fn wrong_retransmitters_are_counted(
    repair: bool,
    facts: ResignFacts,
    stats: SigverifyWorkerStats,
)
    requires
        stats.can_count_retransmitter(),
    ensures
        ({
            let after = resign_counted(repair, facts, stats);
            let verdict = retransmitter_verdict(facts.retransmitter);
            let checked = facts.retransmitter_signed == Some(Ok::<bool, ShredError>(true))
                && !repair;
            &&& !checked ==> after == stats
            &&& checked ==> {
                &&& after.num_invalid_retransmitter == stats.num_invalid_retransmitter
                    + if verdict.passes() {
                    0int
                } else {
                    1
                }
                &&& after.num_retranmitter_signature_skipped == verdict.counted(
                    stats,
                ).num_retranmitter_signature_skipped
                &&& after.num_retranmitter_signature_verified == verdict.counted(
                    stats,
                ).num_retranmitter_signature_verified
                &&& after.num_unknown_slot_leader == verdict.counted(stats).num_unknown_slot_leader
                &&& after.num_unknown_turbine_parent == verdict.counted(
                    stats,
                ).num_unknown_turbine_parent
                &&& after.num_verify_calls == stats.num_verify_calls
                &&& after.num_verify_failed == stats.num_verify_failed
                &&& after.num_discards_post == stats.num_discards_post
            }
        }),
{
}

} // verus!
