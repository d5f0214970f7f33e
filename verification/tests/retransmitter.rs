use sigverify::retransmitter::{
    maybe_verify_and_resign_packet, needs_retransmitter, verify_retransmitter_signature,
    ResignAction, ResignError, ResignFacts, RetransmitterFacts, ShredError, TurbineParent,
};
use sigverify::stats::SigverifyWorkerStats;
use solana_keypair::Keypair;
use solana_signer::Signer;

const MERKLE_ROOT: [u8; 32] = [42; 32];

fn sign(keypair: &Keypair) -> [u8; 64] {
    let signature = keypair.sign_message(&MERKLE_ROOT);
    <[u8; 64]>::try_from(signature.as_ref()).unwrap()
}

fn facts(signer: &Keypair, parent: &Keypair) -> RetransmitterFacts {
    RetransmitterFacts {
        signature: Ok(sign(signer)),
        merkle_root: Some(MERKLE_ROOT),
        slot: Some(5),
        leader: Some([1; 32]),
        parent: TurbineParent::Node(parent.pubkey().to_bytes()),
    }
}

#[test]
fn signature_of_the_parent_verifies() {
    let parent = Keypair::new();
    let mut stats = SigverifyWorkerStats::default();
    assert!(verify_retransmitter_signature(&facts(&parent, &parent), &mut stats));
    assert_eq!(stats.num_retranmitter_signature_verified, 1);
}

#[test]
fn signature_of_another_node_does_not_verify() {
    let mut stats = SigverifyWorkerStats::default();
    let facts = facts(&Keypair::new(), &Keypair::new());
    assert!(!verify_retransmitter_signature(&facts, &mut stats));
    assert_eq!(stats.num_retranmitter_signature_verified, 0);
}

#[test]
fn signature_on_another_root_does_not_verify() {
    let parent = Keypair::new();
    let mut stats = SigverifyWorkerStats::default();
    let facts = RetransmitterFacts {
        merkle_root: Some([43; 32]),
        ..facts(&parent, &parent)
    };
    assert!(!verify_retransmitter_signature(&facts, &mut stats));
}

#[test]
fn shreds_without_a_signature_pass() {
    let parent = Keypair::new();
    let mut stats = SigverifyWorkerStats::default();
    let unsigned = RetransmitterFacts {
        signature: Err(ShredError::InvalidShredVariant),
        ..facts(&parent, &parent)
    };
    assert!(verify_retransmitter_signature(&unsigned, &mut stats));
    let short = RetransmitterFacts {
        signature: Err(ShredError::InvalidPacketSize),
        ..unsigned
    };
    assert!(!verify_retransmitter_signature(&short, &mut stats));
    let malformed = RetransmitterFacts {
        signature: Err(ShredError::Malformed),
        ..unsigned
    };
    assert!(!verify_retransmitter_signature(&malformed, &mut stats));
    assert_eq!(stats.num_retranmitter_signature_verified, 0);
    assert_eq!(stats.num_retranmitter_signature_skipped, 0);
}

#[test]
fn missing_facts_fail_the_check() {
    let parent = Keypair::new();
    let complete = facts(&parent, &parent);
    let mut stats = SigverifyWorkerStats::default();
    let no_root = RetransmitterFacts { merkle_root: None, ..complete };
    assert!(!verify_retransmitter_signature(&no_root, &mut stats));
    let no_id = RetransmitterFacts { slot: None, ..complete };
    assert!(!verify_retransmitter_signature(&no_id, &mut stats));
    assert_eq!(stats.num_unknown_slot_leader, 0);
    let no_leader = RetransmitterFacts { leader: None, ..complete };
    assert!(!verify_retransmitter_signature(&no_leader, &mut stats));
    assert_eq!(stats.num_unknown_slot_leader, 1);
    let unknown = RetransmitterFacts { parent: TurbineParent::Unknown, ..complete };
    assert!(!verify_retransmitter_signature(&unknown, &mut stats));
    assert_eq!(stats.num_unknown_turbine_parent, 1);
}

#[test]
fn shreds_without_a_parent_are_skipped() {
    let parent = Keypair::new();
    let mut stats = SigverifyWorkerStats::default();
    let root = RetransmitterFacts {
        parent: TurbineParent::NotNeeded,
        ..facts(&Keypair::new(), &parent)
    };
    assert!(verify_retransmitter_signature(&root, &mut stats));
    assert_eq!(stats.num_retranmitter_signature_skipped, 1);
    assert_eq!(stats.num_retranmitter_signature_verified, 0);
}

// Only the shreds of the last batch of a slot carry a retransmitter signature. They are resigned,
// whether they came by repair or not; all others are left as they are.
#[test]
fn only_signed_variants_are_resigned() {
    for repaired in [true, false] {
        for is_last_in_slot in [true, false] {
            let leader = Keypair::new();
            let facts = ResignFacts {
                retransmitter_signed: Some(Ok(is_last_in_slot)),
                retransmitter: RetransmitterFacts {
                    parent: TurbineParent::NotNeeded,
                    ..facts(&Keypair::new(), &leader)
                },
                enforced: Some(true),
            };
            let mut stats = SigverifyWorkerStats::default();
            let action = maybe_verify_and_resign_packet(repaired, &facts, &mut stats).unwrap();
            if is_last_in_slot {
                assert_eq!(action, ResignAction::Resign);
            } else {
                assert_eq!(action, ResignAction::Leave);
            }
            let skipped = usize::from(!repaired && is_last_in_slot);
            assert_eq!(stats.num_retranmitter_signature_skipped, skipped);
            assert_eq!(stats.num_invalid_retransmitter, 0);
        }
    }
}

#[test]
fn only_turbine_shreds_that_are_signed_need_their_retransmitter() {
    assert!(needs_retransmitter(false, &Some(Ok(true))));
    assert!(!needs_retransmitter(true, &Some(Ok(true))));
    assert!(!needs_retransmitter(false, &Some(Ok(false))));
    assert!(!needs_retransmitter(false, &Some(Err(ShredError::Malformed))));
    assert!(!needs_retransmitter(false, &None));
}

#[test]
fn a_wrong_signature_counts_only_where_it_is_enforced() {
    let wrong = facts(&Keypair::new(), &Keypair::new());
    for (enforced, rejected) in [(Some(true), true), (Some(false), false), (None, false)] {
        let mut stats = SigverifyWorkerStats::default();
        let facts = ResignFacts {
            retransmitter_signed: Some(Ok(true)),
            retransmitter: wrong,
            enforced,
        };
        let decision = maybe_verify_and_resign_packet(false, &facts, &mut stats);
        assert_eq!(stats.num_invalid_retransmitter, 1);
        if rejected {
            assert_eq!(decision, Err(ResignError::VerifyRetransmitterSignature));
        } else {
            assert_eq!(decision, Ok(ResignAction::Resign));
        }
        let mut stats = SigverifyWorkerStats::default();
        let repaired = maybe_verify_and_resign_packet(true, &facts, &mut stats);
        assert_eq!(repaired, Ok(ResignAction::Resign));
        assert_eq!(stats.num_invalid_retransmitter, 0);
    }
}

#[test]
fn unreadable_shreds_are_errors() {
    let parent = Keypair::new();
    let mut stats = SigverifyWorkerStats::default();
    let facts = ResignFacts {
        retransmitter_signed: None,
        retransmitter: facts(&parent, &parent),
        enforced: Some(false),
    };
    assert_eq!(
        maybe_verify_and_resign_packet(false, &facts, &mut stats),
        Err(ResignError::Shred(ShredError::InvalidPacketSize))
    );
    let facts = ResignFacts {
        retransmitter_signed: Some(Err(ShredError::InvalidShredVariant)),
        ..facts
    };
    assert_eq!(
        maybe_verify_and_resign_packet(true, &facts, &mut stats),
        Err(ResignError::Shred(ShredError::InvalidShredVariant))
    );
}
